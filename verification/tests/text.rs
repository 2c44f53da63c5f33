use rusk::num::{decimal_text, exit_code, parse_number, push_decimal2, push_signed};
use rusk::ordmap::OrdMap;
use rusk::path::{is_path_below, join_path, split_path, HostOs};
use rusk::text;

#[test]
fn white_space_is_what_char_says() {
    for n in 0..=0x10FFFFu32 {
        if let Some(c) = char::from_u32(n) {
            assert_eq!(text::is_white_space(c), c.is_whitespace(), "{n:x}");
        }
    }
}

#[test]
fn ascii_classes_are_what_char_says() {
    for n in 0..0x250u32 {
        let c = char::from_u32(n).unwrap();
        assert_eq!(text::is_alnum(c), c.is_ascii_alphanumeric());
        assert_eq!(text::is_letter(c), c.is_ascii_alphabetic());
        assert_eq!(text::is_digit(c), c.is_ascii_digit());
        assert_eq!(text::is_hex_digit(c), c.is_ascii_hexdigit());
        assert_eq!(text::to_lower(c), c.to_ascii_lowercase());
        assert_eq!(text::to_upper(c), c.to_ascii_uppercase());
    }
}

fn samples() -> Vec<&'static str> {
    vec![
        "", " ", "a", "a.b", ".a", "a.", "..", "é.ü", "a\nb", "a\r\nb\r\n", "\n", "\r", "a\r", "  x  ",
        "\u{3000}x\u{a0}", "one two\tthree", "a::b", "x=1,y=2", "…tail", "\n\n", "a\n\nb", "\r\n", "__x",
    ]
}

#[test]
fn splitting_is_what_str_does() {
    for s in samples() {
        let want: Vec<&str> = s.split('.').collect();
        assert_eq!(text::split(s, '.'), want, "{s:?}");
        let want: Vec<&str> = s.lines().collect();
        assert_eq!(text::lines(s), want, "{s:?}");
        let want: Vec<&str> = s.split_whitespace().collect();
        assert_eq!(text::words(s), want, "{s:?}");
        let want = s.split_once('.').map(|(a, b)| (a.to_string(), b.to_string()));
        assert_eq!(text::split_once(s, '.'), want, "{s:?}");
        let want = s.rsplit_once('.').map(|(a, b)| (a.to_string(), b.to_string()));
        assert_eq!(text::rsplit_once(s, '.'), want, "{s:?}");
        let want = s.split_once("::").map(|(a, b)| (a.to_string(), b.to_string()));
        assert_eq!(text::split_once_text(s, "::"), want, "{s:?}");
    }
}

#[test]
fn trimming_is_what_str_does() {
    for s in samples() {
        assert_eq!(text::trim(s), s.trim(), "{s:?}");
        assert_eq!(text::trim_end_char(s, '.'), s.trim_end_matches('.'), "{s:?}");
        assert_eq!(text::trim_start_char(s, '_'), s.trim_start_matches('_'), "{s:?}");
        assert_eq!(text::trim_start_text(s, "a"), s.trim_start_matches("a"), "{s:?}");
        assert_eq!(text::trim_start_text(s, "..x"), s.trim_start_matches("..x"), "{s:?}");
    }
    assert_eq!(text::trim_start_text("SHA256:SHA256: x", "SHA256:"), " x");
}

#[test]
fn searching_is_what_str_does() {
    for s in samples() {
        for p in ["", "a", ".", "x", "\n", "::", "b\r\n", "é"] {
            assert_eq!(text::contains(s, p), s.contains(p), "{s:?} {p:?}");
            assert_eq!(text::starts_with(s, p), s.starts_with(p), "{s:?} {p:?}");
            assert_eq!(text::ends_with(s, p), s.ends_with(p), "{s:?} {p:?}");
            assert_eq!(text::strip_prefix(s, p), s.strip_prefix(p).map(|x| x.to_string()));
            assert_eq!(text::strip_suffix(s, p), s.strip_suffix(p).map(|x| x.to_string()));
        }
    }
}

#[test]
fn rewriting_is_what_str_does() {
    for s in samples() {
        assert_eq!(text::replace_char(s, '.', "/"), s.replace('.', "/"));
        assert_eq!(text::to_lower_text(s), s.to_ascii_lowercase());
        assert_eq!(text::to_upper_text(s), s.to_ascii_uppercase());
    }
    let parts = vec!["a".to_string(), "".to_string(), "b".to_string()];
    assert_eq!(text::join(&parts, ","), "a,,b");
    assert_eq!(text::join(&vec![], ","), "");
}

#[test]
fn order_is_what_str_says() {
    let all = samples();
    for a in &all {
        for b in &all {
            assert_eq!(text::is_before(a, b), a < b, "{a:?} {b:?}");
        }
    }
}

#[test]
fn sorting_is_what_vec_does() {
    let v: Vec<String> = ["b", "a", "c", "a", "", "é", "Z"].iter().map(|s| s.to_string()).collect();
    let mut want = v.clone();
    want.sort();
    assert_eq!(text::sort_strings(&v), want);
    want.dedup();
    assert_eq!(text::sort_dedup_strings(&v), want);
}

#[test]
fn positions_are_sorted_stably() {
    let keys: Vec<String> = ["b", "a", "b", "a"].iter().map(|s| s.to_string()).collect();
    assert_eq!(text::sort_positions(&keys), vec![1, 3, 0, 2]);
}

#[test]
fn numbers_are_written_and_read() {
    for n in [0u64, 7, 10, 99, 100, 4294967295, u64::MAX] {
        assert_eq!(decimal_text(n), n.to_string());
        assert_eq!(parse_number(&decimal_text(n), u64::MAX), Some(n));
    }
    for s in ["", "+", "+5", "-5", "5a", " 5", "00012", "4294967295", "4294967296", "99999999999999999999999"] {
        let want = s.parse::<u32>().ok().map(|n| n as u64);
        assert_eq!(parse_number(s, u32::MAX as u64), want, "{s:?}");
    }
    let mut out = String::new();
    push_decimal2(&mut out, 5);
    push_decimal2(&mut out, 42);
    push_signed(&mut out, -7);
    push_signed(&mut out, i32::MIN);
    assert_eq!(out, "0542-7-2147483648");
    assert_eq!(exit_code(Some(-1)), format!("{:?}", Some(-1)));
    assert_eq!(exit_code(None), "None");
}

#[test]
fn maps_keep_their_keys_in_order() {
    let mut m: OrdMap<u32> = OrdMap::new();
    for (i, k) in ["b", "a", "c", "b"].iter().enumerate() {
        m.insert(k.to_string(), i as u32);
    }
    let keys: Vec<&str> = m.entries().iter().map(|e| e.0.as_str()).collect();
    assert_eq!(keys, ["a", "b", "c"]);
    assert_eq!(m.get("b"), Some(&3));
    assert_eq!(m.get("a"), Some(&1));
    assert_eq!(m.get("d"), None);
}

#[test]
fn joining_is_what_path_does() {
    for base in ["", "/", "a", "a/", "/a/b", "a//"] {
        for part in ["", "b", "/b", "b/c", "./b", ".."] {
            let want = std::path::Path::new(base).join(part);
            assert_eq!(join_path(HostOs::Linux, base, part), want.to_str().unwrap(), "{base:?} {part:?}");
        }
    }
}

#[test]
fn joining_on_windows() {
    let h = HostOs::Windows;
    assert_eq!(join_path(h, "C:\\ndk", "toolchains"), "C:\\ndk\\toolchains");
    assert_eq!(join_path(h, "C:\\", "x"), "C:\\x");
    assert_eq!(join_path(h, "C:", "x"), "C:x");
    assert_eq!(join_path(h, "C:\\a", "D:\\b"), "D:\\b");
    assert_eq!(join_path(h, "C:\\a", "\\b"), "C:\\b");
    assert_eq!(join_path(h, "a/", "b"), "a/b");
}

#[test]
fn prefixes_on_windows_are_kept() {
    let h = HostOs::Windows;
    assert_eq!(join_path(h, "\\\\srv\\share\\a", "\\b"), "\\\\srv\\share\\b");
    assert_eq!(join_path(h, "//srv/share/a", "/b"), "//srv/share/b");
    assert_eq!(join_path(h, "\\\\srv\\share", "b"), "\\\\srv\\share\\b");
    assert_eq!(join_path(h, "C:\\a", "\\\\srv\\share\\b"), "\\\\srv\\share\\b");
    assert_eq!(join_path(h, "C:\\a", "\\\\srv"), "C:\\\\srv");
    assert_eq!(join_path(h, "\\\\.\\COM1", "\\b"), "\\\\.\\COM1\\b");
    assert_eq!(join_path(h, "C:", "\\b"), "C:\\b");
}

#[test]
fn verbatim_paths_on_windows_are_normalised() {
    let h = HostOs::Windows;
    assert_eq!(join_path(h, "\\\\?\\C:\\a", "b/./c/../d"), "\\\\?\\C:\\a\\b\\d");
    assert_eq!(join_path(h, "\\\\?\\C:\\a\\", "..\\..\\x"), "\\\\?\\C:\\x");
    assert_eq!(join_path(h, "\\\\?\\C:\\a", "/x"), "\\\\?\\C:\\x");
    assert_eq!(join_path(h, "\\\\?\\UNC\\srv\\share\\a", "\\x"), "\\\\?\\UNC\\srv\\share\\x");
    assert_eq!(join_path(h, "\\\\?\\name", "x"), "\\\\?\\name\\x");
    assert_eq!(join_path(h, "\\\\?\\C:\\a", ""), "\\\\?\\C:\\a\\");
}

#[test]
fn being_below_is_what_path_says() {
    let paths = ["/a", "/a/b", "/ab", "a", "./a", "a/./b", "a/b", "a//b/", "/", "", ".", "../a"];
    for p in paths {
        for b in paths {
            let want = std::path::Path::new(p).starts_with(b);
            assert_eq!(is_path_below(HostOs::Linux, p, b), want, "{p:?} {b:?}");
        }
    }
    assert_eq!(split_path(HostOs::Windows, "C:\\Repo\\x"), ["c:", "/", "Repo", "x"]);
    assert!(is_path_below(HostOs::Windows, "c:\\Repo\\x", "C:/Repo"));
    assert!(is_path_below(HostOs::Windows, "\\\\srv\\share\\x", "//srv/share"));
    assert!(!is_path_below(HostOs::Windows, "\\\\srv\\share\\x", "\\\\srv"));
    assert!(!is_path_below(HostOs::Windows, "\\\\?\\C:\\x", "C:\\"));
}
