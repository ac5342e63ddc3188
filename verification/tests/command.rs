use image_splitter::command::{parse_command, read_counts, DEFAULT_COUNT};
use image_splitter::text::{chars_of, decimal_digit, read_decimal, skip_run, trim, whitespace, CharClass};
use regex::Regex;

fn chars(text: &str) -> Vec<char> {
    text.chars().collect()
}

/// The grammar as one pattern, to hold the parser against: the pattern says
/// what is a command and where its numbers are, and a number that does not
/// parse makes both counts three.
fn by_pattern(pattern: &Regex, text: &str) -> Option<(u32, u32)> {
    pattern.captures(text.trim()).map(|caps| {
        let rows = caps.get(1).unwrap().as_str().parse::<u32>();
        let cols = caps.get(2).unwrap().as_str().parse::<u32>();
        match (rows, cols) {
            (Ok(rows), Ok(cols)) => (rows, cols),
            _ => (3, 3),
        }
    })
}

fn grammar() -> Regex {
    Regex::new(r"^(?:裁剪|切图|分割)\s*(\d+)\s*(?:[\*xX× ])\s*(\d+)$").unwrap()
}

#[test]
fn parses_each_keyword() {
    assert_eq!(parse_command("裁剪 2x2"), Some((2, 2)));
    assert_eq!(parse_command("切图 3*3"), Some((3, 3)));
    assert_eq!(parse_command("分割 2 2"), Some((2, 2)));
}

#[test]
fn parses_each_separator() {
    assert_eq!(parse_command("裁剪 4*5"), Some((4, 5)));
    assert_eq!(parse_command("裁剪 4x5"), Some((4, 5)));
    assert_eq!(parse_command("裁剪 4X5"), Some((4, 5)));
    assert_eq!(parse_command("裁剪 4×5"), Some((4, 5)));
    assert_eq!(parse_command("裁剪 4 5"), Some((4, 5)));
}

#[test]
fn rows_come_before_columns() {
    assert_eq!(parse_command("切图 7x9"), Some((7, 9)));
    assert_eq!(parse_command("切图 9x7"), Some((9, 7)));
}

#[test]
fn white_space_is_optional_everywhere() {
    assert_eq!(parse_command("裁剪2x3"), Some((2, 3)));
    assert_eq!(parse_command("裁剪   2   x   3"), Some((2, 3)));
    assert_eq!(parse_command("裁剪\t2\tx\t3"), Some((2, 3)));
    assert_eq!(parse_command("裁剪\u{3000}2\u{3000}x\u{3000}3"), Some((2, 3)));
    assert_eq!(parse_command("裁剪2  3"), Some((2, 3)));
    assert_eq!(parse_command("裁剪2 \t3"), Some((2, 3)));
    assert_eq!(parse_command("裁剪2\t 3"), Some((2, 3)));
}

#[test]
fn white_space_around_the_command_is_trimmed() {
    assert_eq!(parse_command("  裁剪 2x2  "), Some((2, 2)));
    assert_eq!(parse_command("\n\t裁剪 2x2\r\n"), Some((2, 2)));
    assert_eq!(parse_command("\u{3000}裁剪 2x2\u{a0}"), Some((2, 2)));
}

#[test]
fn plain_text_is_no_command() {
    assert_eq!(parse_command("hello"), None);
    assert_eq!(parse_command(""), None);
    assert_eq!(parse_command("   "), None);
}

#[test]
fn wrong_keyword_is_no_command() {
    assert_eq!(parse_command("剪裁 2x2"), None);
    assert_eq!(parse_command("裁 2x2"), None);
    assert_eq!(parse_command("split 2x2"), None);
    assert_eq!(parse_command("裁图 2x2"), None);
}

#[test]
fn missing_separator_is_no_command() {
    assert_eq!(parse_command("裁剪 22"), None);
    assert_eq!(parse_command("裁剪 2"), None);
    assert_eq!(parse_command("裁剪 2\t2"), None);
    assert_eq!(parse_command("裁剪 2\u{3000}2"), None);
    assert_eq!(parse_command("裁剪 2-2"), None);
}

#[test]
fn text_around_the_command_is_no_command() {
    assert_eq!(parse_command("裁剪 2x2 please"), None);
    assert_eq!(parse_command("裁剪 2x2x2"), None);
    assert_eq!(parse_command("please 裁剪 2x2"), None);
    assert_eq!(parse_command("裁剪 2x2\n裁剪 2x2"), None);
}

#[test]
fn two_separators_are_no_command() {
    assert_eq!(parse_command("裁剪 2 x x 2"), None);
    assert_eq!(parse_command("裁剪 2*x2"), None);
    assert_eq!(parse_command("裁剪 2 * 2"), Some((2, 2)));
}

#[test]
fn missing_number_is_no_command() {
    assert_eq!(parse_command("裁剪 x2"), None);
    assert_eq!(parse_command("裁剪 2x"), None);
    assert_eq!(parse_command("裁剪"), None);
    assert_eq!(parse_command("裁剪 x"), None);
}

#[test]
fn zero_and_leading_zeros_are_read() {
    assert_eq!(parse_command("裁剪 0x0"), Some((0, 0)));
    assert_eq!(parse_command("裁剪 007x010"), Some((7, 10)));
    assert_eq!(parse_command("裁剪 00000000000000000002x3"), Some((2, 3)));
}

#[test]
fn largest_count_is_read() {
    assert_eq!(parse_command("裁剪 4294967295x1"), Some((4294967295, 1)));
}

#[test]
fn number_too_large_makes_both_counts_default() {
    assert_eq!(parse_command("裁剪 99999999999x2"), Some((3, 3)));
    assert_eq!(parse_command("裁剪 4294967296x2"), Some((3, 3)));
    assert_eq!(parse_command("裁剪 2x99999999999999999999999"), Some((3, 3)));
    assert_eq!(parse_command("裁剪 99999999999x99999999999"), Some((3, 3)));
    assert_eq!(parse_command("裁剪 4294967296x7"), Some((3, 3)));
    assert_eq!(parse_command("裁剪 7 * 4294967296"), Some((3, 3)));
    assert_eq!(DEFAULT_COUNT, 3);
}

#[test]
fn digits_of_other_scripts_make_both_counts_default() {
    assert_eq!(parse_command("裁剪 ２x２"), Some((3, 3)));
    assert_eq!(parse_command("裁剪 ٥x2"), Some((3, 3)));
    assert_eq!(parse_command("裁剪 1２x4"), Some((3, 3)));
    assert_eq!(parse_command("裁剪 4x1２"), Some((3, 3)));
}

#[test]
fn parsing_twice_gives_the_same() {
    for text in ["裁剪 2x2", "hello", "切图 3 * 4", "分割 99999999999 1", ""] {
        assert_eq!(parse_command(text), parse_command(text));
    }
}

#[test]
fn agrees_with_the_pattern_on_chosen_texts() {
    let pattern = grammar();
    let texts = [
        "裁剪 2x2", "切图 3*3", "分割 2 2", "hello", "裁剪2x3", "裁剪 2\t2", "裁剪 2 \t2",
        "裁剪 ٣x٣", "裁剪 2x2 ", " 裁剪 2x2", "裁剪裁剪 2x2", "裁剪 2 x 2", "裁剪 2  2",
        "裁剪 -2x2", "裁剪 +2x2", "裁剪 2.5x2", "裁剪 2x2\u{85}", "裁剪\u{2003}2x2", "裁剪 2×2",
        "裁剪 2✕2", "裁剪 2xX2", "裁剪 ① x 2", "裁剪 1 2 3", "裁剪 12 34", "裁剪 1 2 ",
    ];
    for text in texts {
        assert_eq!(parse_command(text), by_pattern(&pattern, text), "text {:?}", text);
    }
}

#[test]
fn agrees_with_the_pattern_on_every_short_text() {
    let pattern = grammar();
    let pieces = [
        "裁剪", "切图", "分割", "裁", " ", "\t", "\u{3000}", "1", "20", "0", "99999999999", "٣",
        "x", "X", "*", "×", "a", "\n",
    ];
    let n = pieces.len();
    let mut count: u32 = 0;
    for a in 0..n {
        for b in 0..n {
            for c in 0..n {
                for d in 0..n {
                    let text = format!("{}{}{}{}", pieces[a], pieces[b], pieces[c], pieces[d]);
                    assert_eq!(parse_command(&text), by_pattern(&pattern, &text), "text {:?}", text);
                    count += 1;
                }
            }
        }
    }
    assert_eq!(count, 104976);
}

#[test]
fn agrees_with_the_pattern_on_longer_commands() {
    let pattern = grammar();
    let gaps = ["", " ", "  ", "\t", " \t", "\t ", "\u{3000}"];
    let separators = ["*", "x", "X", "×", " ", "", "\t", "xx", "-"];
    let numbers = ["1", "10", "007", "4294967295", "4294967296", "２", ""];
    for g1 in gaps {
        for n1 in numbers {
            for g2 in gaps {
                for s in separators {
                    for g3 in gaps {
                        for n2 in numbers {
                            let text = format!("切图{}{}{}{}{}{}", g1, n1, g2, s, g3, n2);
                            assert_eq!(
                                parse_command(&text),
                                by_pattern(&pattern, &text),
                                "text {:?}",
                                text
                            );
                        }
                    }
                }
            }
        }
    }
}

#[test]
fn digit_class_is_the_one_of_the_pattern() {
    let digit = Regex::new(r"^\d$").unwrap();
    let mut buffer = [0u8; 4];
    let mut digits: u32 = 0;
    for code in 0..=0x10ffffu32 {
        if let Some(c) = char::from_u32(code) {
            let text: &str = c.encode_utf8(&mut buffer);
            assert_eq!(decimal_digit(c), digit.is_match(text), "char {:?}", c);
            if decimal_digit(c) {
                digits += 1;
            }
        }
    }
    assert_eq!(digits, 760);
}

#[test]
fn white_space_class_is_the_one_of_the_pattern_and_of_trim() {
    let space = Regex::new(r"^\s$").unwrap();
    let mut buffer = [0u8; 4];
    let mut spaces: u32 = 0;
    for code in 0..=0x10ffffu32 {
        if let Some(c) = char::from_u32(code) {
            let text: &str = c.encode_utf8(&mut buffer);
            assert_eq!(whitespace(c), space.is_match(text), "char {:?}", c);
            assert_eq!(whitespace(c), c.is_whitespace(), "char {:?}", c);
            if whitespace(c) {
                spaces += 1;
            }
        }
    }
    assert_eq!(spaces, 25);
}

#[test]
fn class_membership() {
    assert!(CharClass::Whitespace.contains(' '));
    assert!(!CharClass::Whitespace.contains('x'));
    assert!(CharClass::Digit.contains('7'));
    assert!(CharClass::Digit.contains('７'));
    assert!(!CharClass::Digit.contains(' '));
    assert!(!CharClass::Digit.contains('×'));
}

#[test]
fn skip_run_stops_at_the_first_other_character() {
    let t = chars("  12 x");
    assert_eq!(skip_run(&t, 0, CharClass::Whitespace), 2);
    assert_eq!(skip_run(&t, 2, CharClass::Whitespace), 2);
    assert_eq!(skip_run(&t, 2, CharClass::Digit), 4);
    assert_eq!(skip_run(&t, 5, CharClass::Digit), 5);
    assert_eq!(skip_run(&t, 6, CharClass::Digit), 6);
    let all = chars("123");
    assert_eq!(skip_run(&all, 0, CharClass::Digit), 3);
}

#[test]
fn trim_takes_white_space_from_both_ends_only() {
    assert_eq!(trim(&chars("  a b  ")).to_vec(), chars("a b"));
    assert_eq!(trim(&chars("a")).to_vec(), chars("a"));
    assert_eq!(trim(&chars(" \t\n")).to_vec(), chars(""));
    assert_eq!(trim(&chars("")).to_vec(), chars(""));
    for text in ["  x ", "\u{3000}裁剪 2x2\u{2028}", "no", " a  b "] {
        assert_eq!(trim(&chars(text)).to_vec(), chars(text.trim()));
    }
}

#[test]
fn chars_of_gives_every_character() {
    assert_eq!(chars_of("裁剪 2×2"), vec!['裁', '剪', ' ', '2', '×', '2']);
    assert_eq!(chars_of(""), Vec::<char>::new());
}

#[test]
fn read_decimal_holds_the_limit() {
    assert_eq!(read_decimal(&chars("0"), 10), Some(0));
    assert_eq!(read_decimal(&chars("10"), 10), Some(10));
    assert_eq!(read_decimal(&chars("11"), 10), None);
    assert_eq!(read_decimal(&chars("0010"), 10), Some(10));
    assert_eq!(read_decimal(&chars("4294967295"), u32::MAX), Some(4294967295));
    assert_eq!(read_decimal(&chars("4294967296"), u32::MAX), None);
    assert_eq!(read_decimal(&chars("1a"), 100), None);
    assert_eq!(read_decimal(&chars("１"), 100), None);
    assert_eq!(read_decimal(&chars(""), 100), Some(0));
}

#[test]
fn read_counts_gives_the_values_or_the_default_for_both() {
    assert_eq!(read_counts(&chars("0"), &chars("1")), (0, 1));
    assert_eq!(read_counts(&chars("0012"), &chars("4294967295")), (12, 4294967295));
    assert_eq!(read_counts(&chars("4294967296"), &chars("5")), (3, 3));
    assert_eq!(read_counts(&chars("5"), &chars("4294967296")), (3, 3));
    assert_eq!(read_counts(&chars("5"), &chars("99999999999999999999")), (3, 3));
    assert_eq!(read_counts(&chars("２"), &chars("5")), (3, 3));
    assert_eq!(read_counts(&chars("5"), &chars("1２")), (3, 3));
    assert_eq!(read_counts(&chars("3"), &chars("3")), (3, 3));
}

#[test]
fn read_counts_agrees_with_the_standard_parse() {
    let numbers = ["0", "1", "12", "0012", "4294967295", "4294967296", "99999999999999999999", "２"];
    for rows in numbers {
        for cols in numbers {
            let expected = match (rows.parse::<u32>(), cols.parse::<u32>()) {
                (Ok(rows), Ok(cols)) => (rows, cols),
                _ => (3, 3),
            };
            assert_eq!(read_counts(&chars(rows), &chars(cols)), expected, "{:?} {:?}", rows, cols);
        }
    }
}

#[test]
fn agrees_with_the_pattern_on_random_texts() {
    let pattern = grammar();
    let alphabet: Vec<char> = "裁剪切图分割 \t\n\r\u{b}\u{c}\u{85}\u{a0}\u{1680}\u{2000}\u{200a}\u{2028}\u{2029}\u{202f}\u{205f}\u{3000}\u{200b}0123456789٠٩０９𝟘߉*xX×✕+-.a"
        .chars()
        .collect();
    let mut state: u64 = 0x2545f4914f6cdd1d;
    let mut next = move || {
        state ^= state << 13;
        state ^= state >> 7;
        state ^= state << 17;
        state
    };
    let mut commands: u32 = 0;
    for _ in 0..200000 {
        let mut text = String::new();
        if next() % 4 != 0 {
            text.push_str(["裁剪", "切图", "分割"][(next() % 3) as usize]);
        }
        let length = next() % 8;
        for _ in 0..length {
            text.push(alphabet[(next() % alphabet.len() as u64) as usize]);
        }
        let expected = by_pattern(&pattern, &text);
        assert_eq!(parse_command(&text), expected, "text {:?}", text);
        if expected.is_some() {
            commands += 1;
        }
    }
    assert!(commands > 100);
}
