use dictation::text::{is_white_space, precedes, trim, trim_start};

#[test]
fn white_space_is_that_of_std() {
    for c in '\0'..=char::MAX {
        assert_eq!(is_white_space(c), c.is_whitespace(), "{:?}", c);
    }
}

#[test]
fn trimming_is_that_of_std() {
    for s in ["", " ", " \t\n", "a", " a", "a ", " \u{a0}a b\u{3000}\n", "\u{2009}é\u{85}", "\u{200b}x"] {
        assert_eq!(trim(s), s.trim());
        assert_eq!(trim_start(s), s.trim_start());
    }
    assert_eq!(trim_start("  hello "), "hello ");
    assert_eq!(trim("  hello "), "hello");
}

#[test]
fn order_is_that_of_std() {
    let names = ["", "a", "b", "ab", "aé", "B", "~", "é", "\u{ffff}", "\u{10000}", "abc"];
    for a in names {
        for b in names {
            assert_eq!(precedes(a, b), a <= b, "{} {}", a, b);
        }
    }
}
