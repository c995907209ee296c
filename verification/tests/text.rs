use light_devices::text::is_white_space;
use light_devices::text::to_chars;
use light_devices::text::trim;
use light_devices::text::trim_bounds;

#[test]
fn white_space_is_what_the_standard_library_calls_white_space() {
    let mut code: u32 = 0;
    while code <= 0x10FFFF {
        if let Some(c) = char::from_u32(code) {
            assert_eq!(is_white_space(c), c.is_whitespace(), "U+{:04X}", code);
        }
        code += 1;
    }
}

#[test]
fn white_space_holds_the_usual_characters() {
    for c in [' ', '\t', '\n', '\r', '\u{0B}', '\u{0C}', '\u{85}', '\u{A0}', '\u{3000}'] {
        assert!(is_white_space(c));
    }
    for c in ['0', 'a', '-', '+', '/', '.', '\0', '\u{200B}', '\u{FEFF}'] {
        assert!(!is_white_space(c));
    }
}

#[test]
fn to_chars_keeps_every_character_in_order() {
    assert_eq!(to_chars(""), Vec::<char>::new());
    assert_eq!(to_chars("3\n"), vec!['3', '\n']);
    assert_eq!(to_chars("é\u{3000}x"), vec!['é', '\u{3000}', 'x']);
}

#[test]
fn trim_bounds_mark_the_trimmed_text() {
    assert_eq!(trim_bounds(&to_chars("  12 \n")), (2, 4));
    assert_eq!(trim_bounds(&to_chars("12")), (0, 2));
    assert_eq!(trim_bounds(&to_chars("")), (0, 0));
    assert_eq!(trim_bounds(&to_chars(" \n ")), (3, 3));
    assert_eq!(trim_bounds(&to_chars("a b")), (0, 3));
}

#[test]
fn trim_removes_white_space_at_both_ends_only() {
    assert_eq!(trim("128\n"), "128");
    assert_eq!(trim("128"), "128");
    assert_eq!(trim("\t 1 2 \r\n"), "1 2");
    assert_eq!(trim(""), "");
    assert_eq!(trim(" \n\t"), "");
    assert_eq!(trim("\u{A0}7\u{2003}"), "7");
    assert_eq!(trim("\u{200B}7"), "\u{200B}7");
}

#[test]
fn trim_agrees_with_the_standard_library() {
    let texts = [
        "",
        " ",
        "3\n",
        "\n3",
        " 15 \n",
        "N/A",
        " N / A ",
        "\u{85}x\u{1680}",
        "\u{2028}\u{2029}y\u{202F}\u{205F}",
        "é\u{3000}",
        "\u{180E}z\u{180E}",
        "a\u{A0}",
        "\r\n\r\n",
    ];
    for text in texts {
        assert_eq!(trim(text), text.trim(), "{:?}", text);
    }
}
