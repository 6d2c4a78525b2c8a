use rf_desktop::path::{is_below, is_whole_file_name, leaves_directory, Platform};
use rf_desktop::text::{
    cut_before, decimal_text, is_white_space, replace_char, strip_prefix, to_ascii_lowercase, trim,
    trim_leading,
};
use std::path::Path;

#[test]
fn white_space_is_unicodes() {
    for code in 0..=0x10ffff {
        if let Some(c) = char::from_u32(code) {
            assert_eq!(is_white_space(c), c.is_whitespace(), "{code:x}");
        }
    }
}

#[test]
fn texts_are_cut_as_std_cuts_them() {
    for text in ["", " ", "\u{3000}a b\t", "//a/", "v1", "a?b?c", "?", "äÖ-X", "assets/assets/x"] {
        assert_eq!(trim(text), text.trim());
        assert_eq!(trim_leading(text, '/'), text.trim_start_matches('/'));
        assert_eq!(strip_prefix(text, "assets/"), text.strip_prefix("assets/"));
        assert_eq!(to_ascii_lowercase(text), text.to_ascii_lowercase());
        assert_eq!(replace_char(text, 'a', 'b'), text.replace('a', "b"));
        assert_eq!(cut_before(text, '?'), text.split('?').next().unwrap());
    }
}

#[test]
fn numbers_are_written_in_decimal() {
    for number in [0, 9, 10, 64, 1000, u64::MAX] {
        assert_eq!(decimal_text(number), number.to_string());
    }
}

#[test]
fn whole_file_names_agree_with_std() {
    for name in ["", ".", "..", "a", "a/", "a/b", "/a", "a\\b", "...", "a/.", "c:a"] {
        let path = Path::new(name);
        let expected = path.file_name().and_then(|name| name.to_str()) == Some(name);
        assert_eq!(is_whole_file_name(Platform::Linux, name), expected, "{name}");
    }
    assert!(!is_whole_file_name(Platform::Windows, "a\\b"));
    assert!(!is_whole_file_name(Platform::Windows, "c:a"));
}

#[test]
fn climbing_paths_leave_the_directory() {
    assert!(leaves_directory(Platform::Linux, "a/../b"));
    assert!(!leaves_directory(Platform::Linux, "a/..b"));
    assert!(leaves_directory(Platform::Windows, "c:/a"));
    assert!(leaves_directory(Platform::Windows, "c:.."));
    assert!(!leaves_directory(Platform::Windows, "c:a"));
    assert!(!leaves_directory(Platform::Linux, "c:/a"));
}

#[test]
fn joined_paths_lie_below_as_std_says() {
    let roots = ["", ".", "web", "./web", "/", "/srv/web", "/srv//web/", "/srv/./web", "C:/web"];
    let paths = [
        "", "a", "a/b", "./a", "/", "/srv", "/srv/web", "/srv/web/a", "//srv/web/a", "/srv/./web/.",
        "/srv/webb", "/etc/passwd", "C:/web/a", "C:a",
    ];
    for root in roots {
        for path in paths {
            let expected = Path::new(root).join(path).starts_with(root);
            assert_eq!(is_below(Platform::Linux, root, path), expected, "{root} {path}");
        }
    }
}

#[test]
fn windows_paths_lie_below_their_directory() {
    let below = |root, path| is_below(Platform::Windows, root, path);
    assert!(below("C:\\web", "a/b"));
    assert!(below("C:\\web", "c:/web/a"));
    assert!(!below("C:\\web", "c:web/a"));
    assert!(!below("C:\\web", "d:/web/a"));
    assert!(!below("C:\\web", "/etc"));
    assert!(below("C:\\web", "/web/a"));
    assert!(!below("C:\\web", "//server/share/web"));
    assert!(below("\\\\server\\share\\web", "//server/share/web/a"));
    assert!(!below("\\\\server\\share\\web", "//server/other/web/a"));
    assert!(below("\\\\?\\C:\\web", "/web/a"));
    assert!(!below("\\\\?\\C:\\web", "C:/web/a"));
    assert!(!below("\\\\?\\C:\\web", "//?/C:/web/a"));
}
