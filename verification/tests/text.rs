use winri::text::{
    chars_of, contains, contains_ignoring_case, decimal_text, decode_utf16, hexadecimal_text,
    display_name_from_process, ends_with, eq_ignore_ascii_case, file_name_of, find_char, holds,
    parse_u32, parse_u64, part, pixels_text, read_step, same, shorten, starts_with, trim,
    with_forward_slashes,
};

#[test]
fn utf16_is_decoded_and_what_is_broken_replaced() {
    assert_eq!(decode_utf16(&[0x57, 0x69, 0x6e, 0x72, 0x69]), "Winri");
    assert_eq!(decode_utf16(&[0xD834, 0xDD1E]), "\u{1D11E}");
    assert_eq!(decode_utf16(&[0x41, 0xD800, 0x42]), "A\u{FFFD}B");
    assert_eq!(decode_utf16(&[0xDC00, 0xD800]), "\u{FFFD}\u{FFFD}");
    assert_eq!(decode_utf16(&[0xD800, 0xD834, 0xDD1E]), "\u{FFFD}\u{1D11E}");
    assert_eq!(decode_utf16(&[0xDBFF, 0xDFFF, 0xD7FF, 0xE000]), "\u{10FFFF}\u{D7FF}\u{E000}");
    assert_eq!(decode_utf16(&[]), "");
}

#[test]
fn characters_are_listed_in_order() {
    assert_eq!(chars_of("a\u{e9}z"), vec!['a', '\u{e9}', 'z']);
    assert_eq!(chars_of(""), Vec::<char>::new());
}

#[test]
fn texts_are_compared() {
    assert!(same("tiler", "tiler"));
    assert!(!same("tiler", "Tiler"));
    assert!(eq_ignore_ascii_case("PRIMARY", "primary"));
    assert!(!eq_ignore_ascii_case("\u{c9}", "\u{e9}"));
    assert!(!eq_ignore_ascii_case("primary", "primar"));
}

#[test]
fn substrings_are_found() {
    assert!(contains("a [Winri Ignore Window] b", "[Winri Ignore Window]"));
    assert!(!contains("abc", "abcd"));
    assert!(contains("abc", ""));
    assert!(starts_with("Chrome_WidgetWin_1", "Chrome_WidgetWin_"));
    assert!(!starts_with("Chrome", "Chrome_WidgetWin_"));
    assert!(ends_with("/windows/1/thumbnail", "/thumbnail"));
    assert!(!ends_with("thumbnail", "/thumbnail"));
}

#[test]
fn letter_case_is_ignored_beyond_ascii() {
    assert!(contains_ignoring_case("C:/Apps/MY\u{c9}LECTRON/app.exe", "my\u{e9}lectron"));
    assert!(!contains_ignoring_case("C:/Apps/other.exe", "electron"));
}

#[test]
fn parts_and_positions_count_characters() {
    assert_eq!(part("h\u{e9}llo", 1, 3), "\u{e9}l");
    assert_eq!(find_char("w\u{e9}=3", '='), Some(2));
    assert_eq!(find_char("w", '='), None);
}

#[test]
fn white_space_is_cut_at_both_ends() {
    assert_eq!(trim(" \t chrome.exe\u{2003}\n"), "chrome.exe");
    assert_eq!(trim("   "), "");
    assert_eq!(trim("a b"), "a b");
}

#[test]
fn numbers_are_read_as_the_standard_library_reads_them() {
    assert_eq!(parse_u64("7405134"), Some(7405134));
    assert_eq!(parse_u64("+5"), Some(5));
    assert_eq!(parse_u64("-5"), None);
    assert_eq!(parse_u64("+"), None);
    assert_eq!(parse_u64(""), None);
    assert_eq!(parse_u64("1x"), None);
    assert_eq!(parse_u64("18446744073709551615"), Some(u64::MAX));
    assert_eq!(parse_u64("18446744073709551616"), None);
    assert_eq!(parse_u32("4294967295"), Some(u32::MAX));
    assert_eq!(parse_u32("4294967296"), None);
    assert_eq!(parse_u32("000256"), Some(256));
}

#[test]
fn numbers_are_written_in_decimal() {
    assert_eq!(decimal_text(0), "0");
    assert_eq!(decimal_text(47812), "47812");
    assert_eq!(decimal_text(u64::MAX), "18446744073709551615");
}

#[test]
fn pixels_are_written_without_needless_digits() {
    assert_eq!(pixels_text(10_000), "10");
    assert_eq!(pixels_text(12_500), "12.5");
    assert_eq!(pixels_text(12_340), "12.34");
    assert_eq!(pixels_text(-250), "-0.25");
    assert_eq!(pixels_text(0), "0");
    assert_eq!(pixels_text(1_001), "1.001");
}

#[test]
fn an_executable_gives_its_app_a_name() {
    assert_eq!(display_name_from_process("chrome.exe"), "Chrome");
    assert_eq!(display_name_from_process("Code.EXE"), "Code");
    assert_eq!(display_name_from_process("app.Exe"), "App.Exe");
    assert_eq!(display_name_from_process(".exe"), "");
    assert_eq!(display_name_from_process(""), "");
    assert_eq!(display_name_from_process("\u{df}x.exe"), "SSx");
}

#[test]
fn long_texts_end_in_an_ellipsis() {
    assert_eq!(shorten("abcdef", 6), "abcdef");
    assert_eq!(shorten("abcdefg", 6), "abcde\u{2026}");
    assert_eq!(shorten("\u{e9}\u{e9}\u{e9}", 2), "\u{e9}\u{2026}");
}

#[test]
fn a_path_ends_in_its_file_name() {
    assert_eq!(file_name_of("C:\\Program Files\\Foo\\bar.exe"), "bar.exe");
    assert_eq!(file_name_of("bar.exe"), "bar.exe");
    assert_eq!(file_name_of("C:\\Foo\\"), "");
    assert_eq!(file_name_of(""), "");
}

#[test]
fn paths_get_forward_slashes() {
    assert_eq!(
        with_forward_slashes("C:\\Program Files\\Foo\\bar.exe"),
        "C:/Program Files/Foo/bar.exe"
    );
    assert_eq!(with_forward_slashes(""), "");
}

#[test]
fn lists_hold_exact_texts() {
    let list: Vec<String> = vec!["a.exe".to_string(), "b.exe".to_string()];
    assert!(holds(&list, "b.exe"));
    assert!(!holds(&list, "B.exe"));
}

#[test]
fn white_space_is_what_unicode_counts_as_such() {
    for c in '\0'..=char::MAX {
        let lone: String = c.to_string();
        assert_eq!(trim(&lone).is_empty(), c.is_whitespace(), "{c:?}");
    }
}

#[test]
fn a_plain_decimal_number_of_pixels_is_read_exactly() {
    assert_eq!(read_step("10"), Some(10_000));
    assert_eq!(read_step("12.5"), Some(12_500));
    assert_eq!(read_step("12.34"), Some(12_340));
    assert_eq!(read_step("-0.25"), Some(-250));
    assert_eq!(read_step("1.001"), Some(1_001));
    assert_eq!(read_step("007.05"), Some(7_050));
    assert_eq!(read_step("274877906.944"), Some(274_877_906_944));
    assert_eq!(read_step("274877906.945"), None);
    assert_eq!(read_step("1e2"), None);
    assert_eq!(read_step("1.2345"), None);
    assert_eq!(read_step("1."), None);
    assert_eq!(read_step(".5"), None);
    assert_eq!(read_step("-"), None);
    assert_eq!(read_step("-+5"), None);
    assert_eq!(read_step("1.+5"), None);
    assert_eq!(read_step("1.2.3"), None);
    assert_eq!(read_step(""), None);
    assert_eq!(read_step("ten"), None);
}

#[test]
fn a_length_that_is_shown_reads_back() {
    for v in [0, 1, 10, 100, 999, 1_000, 10_010, 12_345, 99_900, -1, -1_500, -274_877_906_944] {
        assert_eq!(read_step(&pixels_text(v)), Some(v));
    }
}

#[test]
fn hexadecimal_is_in_lower_case() {
    assert_eq!(hexadecimal_text(0), "0");
    assert_eq!(hexadecimal_text(255), "ff");
    assert_eq!(hexadecimal_text(0x1a2b_3c4d), "1a2b3c4d");
    assert_eq!(hexadecimal_text(u64::MAX), "ffffffffffffffff");
}
