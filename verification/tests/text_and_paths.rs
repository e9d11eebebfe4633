use layered_snapshot::paths::{join, same_path};
use layered_snapshot::text::{
    concat3, concat4, decimal_text, is_white_space, signed_decimal_text, trim,
};
use std::path::Path;

#[test]
fn decimals_are_written_like_integers() {
    for n in [0u64, 1, 9, 10, 4096, 1234567890, u64::MAX] {
        assert_eq!(decimal_text(n), n.to_string());
    }
    for n in [0i64, 7, -7, -10, i64::MAX, i64::MIN] {
        assert_eq!(signed_decimal_text(n), n.to_string());
    }
}

#[test]
fn pieces_are_put_together_in_order() {
    assert_eq!(layered_snapshot::text::concat("ab", "c"), "abc");
    assert_eq!(concat3("a", "", "b"), "ab");
    assert_eq!(concat4("1", "2", "3", "4"), "1234");
}

#[test]
fn white_space_is_what_char_says() {
    let mut code = 0u32;
    while code <= 0x10FFFF {
        if let Some(c) = char::from_u32(code) {
            assert_eq!(is_white_space(c), c.is_whitespace(), "code point {}", code);
        }
        code += 1;
    }
}

#[test]
fn trimming_is_what_str_does() {
    for s in ["", " ", "a", " a ", "\t\n a b \u{3000}", "\u{85}x\u{a0}", "none"] {
        assert_eq!(trim(s), s.trim());
    }
}

#[test]
fn paths_compare_like_std_paths() {
    let paths = [
        "", "/", "//", ".", "./", "./a", "a", "a/", "a//", "/a", "//a", "a/.", "a/./b", "a/b",
        "a//b", "a/b/", "a/../b", "..", "../a", "/.", "/./a", "././a", "a/b/.", "ab",
    ];
    for a in paths {
        for b in paths {
            assert_eq!(same_path(a, b), Path::new(a) == Path::new(b), "{} and {}", a, b);
        }
    }
}

#[test]
fn joining_is_what_std_paths_do() {
    for dir in ["", "/", "a", "a/", "/tmp/x", "./"] {
        for name in ["", "b", "/b", "b/c", "./b"] {
            let expected = Path::new(dir).join(name);
            assert_eq!(join(dir, name), expected.to_str().unwrap());
        }
    }
}
