use http_stress::text::{char_is_space, chars_of, decimal_text, has_prefix, trim};

#[test]
fn chars_of_keeps_every_character() {
    assert_eq!(chars_of(""), Vec::<char>::new());
    assert_eq!(chars_of("a:b"), vec!['a', ':', 'b']);
    assert_eq!(chars_of("é\u{3000}z"), vec!['é', '\u{3000}', 'z']);
}

#[test]
fn has_prefix_compares_characters() {
    assert!(has_prefix("http://x", "http://"));
    assert!(has_prefix("http://", "http://"));
    assert!(has_prefix("anything", ""));
    assert!(!has_prefix("http:/", "http://"));
    assert!(!has_prefix("HTTP://x", "http://"));
    assert!(!has_prefix("", "h"));
    assert!(has_prefix("éa", "é"));
}

#[test]
fn whitespace_is_what_std_calls_whitespace() {
    let mut code: u32 = 0;
    while code <= 0x10FFFF {
        if let Some(c) = char::from_u32(code) {
            assert_eq!(char_is_space(c), c.is_whitespace(), "U+{:04X}", code);
        }
        code += 1;
    }
}

#[test]
fn trim_removes_surrounding_whitespace_only() {
    assert_eq!(trim("  a b  "), "a b");
    assert_eq!(trim("\t\r\nvalue\u{a0}\u{2003}"), "value");
    assert_eq!(trim("   "), "");
    assert_eq!(trim(""), "");
    assert_eq!(trim("x"), "x");
    assert_eq!(trim("\u{3000}é \u{1680}"), "é");
}

#[test]
fn trim_agrees_with_std() {
    let samples = [
        "",
        " ",
        "a",
        " a",
        "a ",
        " a b ",
        "\u{85}x\u{2028}",
        "\u{200b}x\u{200b}",
        "\u{feff} y",
        "\n\n key : value \n",
    ];
    for sample in samples {
        assert_eq!(trim(sample), sample.trim());
    }
}

#[test]
fn decimal_text_writes_numerals() {
    assert_eq!(decimal_text(0), "0");
    assert_eq!(decimal_text(7), "7");
    assert_eq!(decimal_text(10), "10");
    assert_eq!(decimal_text(404), "404");
    assert_eq!(decimal_text(65535), "65535");
    assert_eq!(decimal_text(1_000_000_007), "1000000007");
    assert_eq!(decimal_text(u128::MAX), "340282366920938463463374607431768211455");
}

#[test]
fn decimal_text_agrees_with_std() {
    let mut n: u128 = 0;
    while n < 3000 {
        assert_eq!(decimal_text(n), n.to_string());
        n += 1;
    }
}
