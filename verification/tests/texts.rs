use expense_tracker::text::{
    capitalize_chars, capitalize_first_char, ends_with, from_chars, replace_first, split_chars,
    to_chars, trim, trim_chars, whitespace,
};

fn chars(s: &str) -> Vec<char> {
    s.chars().collect()
}

#[test]
fn capitalizes_the_first_letter_only() {
    assert_eq!(capitalize_first_char("january"), "January");
    assert_eq!(capitalize_first_char("January"), "January");
    assert_eq!(capitalize_first_char("mARCH"), "MARCH");
    assert_eq!(capitalize_first_char("2024"), "2024");
    assert_eq!(capitalize_first_char(""), "");
    assert_eq!(capitalize_first_char("a"), "A");
}

#[test]
fn capitalizes_letters_whose_capital_is_longer() {
    assert_eq!(capitalize_first_char("ßeta"), "SSeta");
    assert_eq!(capitalize_first_char("école"), "École");
    assert_eq!(capitalize_chars(&chars("ŉa")), chars("ʼNa"));
}

#[test]
fn replaces_the_first_character() {
    assert_eq!(replace_first(&chars("abc"), &chars("XY")), chars("XYbc"));
    assert_eq!(replace_first(&chars("a"), &chars("")), chars(""));
    assert_eq!(replace_first(&chars(""), &chars("XY")), chars(""));
}

#[test]
fn converts_between_strings_and_characters() {
    assert_eq!(to_chars("héllo"), vec!['h', 'é', 'l', 'l', 'o']);
    assert_eq!(from_chars(&['h', 'é', 'y']), "héy");
    assert_eq!(to_chars(""), Vec::<char>::new());
    assert_eq!(from_chars(&to_chars("a😀b")), "a😀b");
}

#[test]
fn trims_white_space_at_both_ends() {
    assert_eq!(trim("  january \n"), "january");
    assert_eq!(trim("\t a b \r\n"), "a b");
    assert_eq!(trim(""), "");
    assert_eq!(trim(" \n\t "), "");
    assert_eq!(trim("x"), "x");
    assert_eq!(trim_chars(&chars("\u{3000}x\u{a0}")), chars("x"));
}

#[test]
fn trims_what_the_standard_library_trims() {
    for code in 0u32..0x110000 {
        if let Some(c) = char::from_u32(code) {
            assert_eq!(whitespace(c), c.is_whitespace(), "U+{:04X}", code);
        }
    }
    let samples = ["  a  ", "\u{2003}b\u{2029}", "\u{200B}c", "\u{85}d\u{1680}", "e\u{feff}"];
    for sample in samples {
        assert_eq!(trim(sample), sample.trim());
    }
}

#[test]
fn splits_at_every_separator() {
    assert_eq!(split_chars(&chars("a,b,,c"), ','), vec![chars("a"), chars("b"), chars(""), chars("c")]);
    assert_eq!(split_chars(&chars(""), ','), vec![chars("")]);
    assert_eq!(split_chars(&chars(","), ','), vec![chars(""), chars("")]);
    assert_eq!(split_chars(&chars("abc"), ','), vec![chars("abc")]);
    assert_eq!(split_chars(&chars("a,"), ','), vec![chars("a"), chars("")]);
}

#[test]
fn tells_a_suffix() {
    assert!(ends_with(&chars("January.csv"), &chars(".csv")));
    assert!(ends_with(&chars(".csv"), &chars(".csv")));
    assert!(!ends_with(&chars("csv"), &chars(".csv")));
    assert!(!ends_with(&chars("January.csv.bak"), &chars(".csv")));
    assert!(ends_with(&chars("x"), &chars("")));
}
