use window_harness::text::{indent, is_white_space, same_text, trim};

#[test]
fn same_text_compares_every_character() {
    assert!(same_text("", ""));
    assert!(same_text("window", "window"));
    assert!(!same_text("window", "windows"));
    assert!(!same_text("windows", "window"));
    assert!(!same_text("window", "Window"));
    assert!(!same_text("", " "));
    assert!(same_text("gr\u{fc}n", "gr\u{fc}n"));
    assert!(!same_text("gr\u{fc}n", "grun"));
}

#[test]
fn indent_is_four_spaces_to_the_level() {
    assert_eq!(indent(0), "");
    assert_eq!(indent(1), "    ");
    assert_eq!(indent(3), "            ");
    assert_eq!(indent(250).len(), 1000);
    assert!(indent(250).chars().all(|c| c == ' '));
}

#[test]
fn white_space_is_what_the_standard_library_calls_so() {
    let mut n: u32 = 0;
    while n <= 0x10ffff {
        if let Some(c) = char::from_u32(n) {
            assert_eq!(is_white_space(c), c.is_whitespace(), "U+{:04X}", n);
        }
        n += 1;
    }
}

#[test]
fn trim_takes_white_space_off_both_ends() {
    assert_eq!(trim("  two words \n"), "two words");
    assert_eq!(trim("x"), "x");
    assert_eq!(trim("x  "), "x");
    assert_eq!(trim("\t\tx"), "x");
    assert_eq!(trim("a\u{3000}b"), "a\u{3000}b");
    assert_eq!(trim("\u{3000}\u{a0}\u{e9}t\u{e9}\u{2003}\u{85}"), "\u{e9}t\u{e9}");
}

#[test]
fn trim_of_white_space_alone_is_empty() {
    assert_eq!(trim(""), "");
    assert_eq!(trim(" "), "");
    assert_eq!(trim(" \r\n\t \u{2028}"), "");
}

#[test]
fn trim_agrees_with_the_standard_library() {
    for text in ["", " ", "a", " a", "a ", " a b ", "\n\n", "\u{1680}q\u{1680}", "  \u{200b} ", "\u{feff}x "] {
        assert_eq!(trim(text), text.trim(), "{:?}", text);
    }
}
