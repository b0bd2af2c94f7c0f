use homework_organizer::text::{
    characters, is_space, join_words, parse_number, same_text, split_words, to_decimal,
};

fn strings(words: &[&str]) -> Vec<String> {
    words.iter().map(|w| w.to_string()).collect()
}

#[test]
fn same_text_compares_characters() {
    assert!(same_text("", ""));
    assert!(same_text("ac", "ac"));
    assert!(!same_text("ac", "ca"));
    assert!(!same_text("ac", "ac "));
    assert!(!same_text("a", "A"));
    assert!(same_text("naïve ✓", "naïve ✓"));
}

#[test]
fn characters_lists_the_characters_in_order() {
    assert_eq!(characters(""), Vec::<char>::new());
    assert_eq!(characters("ab c"), vec!['a', 'b', ' ', 'c']);
    assert_eq!(characters("é✓"), vec!['é', '✓']);
}

#[test]
fn is_space_agrees_with_the_standard_library_on_every_character() {
    for code in 0u32..=0x10FFFF {
        if let Some(c) = char::from_u32(code) {
            assert_eq!(is_space(c), c.is_whitespace());
        }
    }
}

#[test]
fn split_words_drops_white_space() {
    assert_eq!(split_words(""), Vec::<String>::new());
    assert_eq!(split_words("   \t\n"), Vec::<String>::new());
    assert_eq!(split_words("ac"), strings(&["ac"]));
    assert_eq!(split_words("ac Algebra ALG\n"), strings(&["ac", "Algebra", "ALG"]));
    assert_eq!(split_words("  ac   Algebra\tALG  "), strings(&["ac", "Algebra", "ALG"]));
    assert_eq!(split_words("a\u{00A0}b\u{3000}c"), strings(&["a", "b", "c"]));
    assert_eq!(split_words("x\r\n"), strings(&["x"]));
    assert_eq!(split_words("één twee"), strings(&["één", "twee"]));
}

#[test]
fn split_words_agrees_with_the_standard_library() {
    for line in ["aa ALG read  chapter 3\n", " a  b ", "\t\tx", "one", "a b c d e f g"] {
        let expected: Vec<String> = line.split_whitespace().map(|w| w.to_string()).collect();
        assert_eq!(split_words(line), expected);
    }
}

#[test]
fn join_words_puts_one_blank_between_words() {
    assert_eq!(join_words(&strings(&[])), "");
    assert_eq!(join_words(&strings(&["one"])), "one");
    assert_eq!(join_words(&strings(&["read", "chapter", "3"])), "read chapter 3");
    assert_eq!(join_words(&strings(&["", ""])), " ");
}

#[test]
fn parse_number_reads_decimal_numbers() {
    assert_eq!(parse_number("0"), Some(0));
    assert_eq!(parse_number("1"), Some(1));
    assert_eq!(parse_number("42"), Some(42));
    assert_eq!(parse_number("007"), Some(7));
    assert_eq!(parse_number("+5"), Some(5));
    assert_eq!(parse_number("1234567890"), Some(1234567890));
}

#[test]
fn parse_number_refuses_what_is_no_number() {
    for word in ["", "+", "-1", "-0", "1a", "a1", "1 ", " 1", "1.0", "++1", "1+", "0x10", "١٢", "1_000"] {
        assert_eq!(parse_number(word), None);
    }
}

#[test]
fn parse_number_stops_at_the_largest_index() {
    let largest = usize::MAX.to_string();
    assert_eq!(parse_number(&largest), Some(usize::MAX));
    assert_eq!(parse_number(&format!("+{}", largest)), Some(usize::MAX));
    assert_eq!(parse_number(&format!("000{}", largest)), Some(usize::MAX));
    let mut past = largest.clone();
    let last = past.pop().unwrap();
    past.push(char::from_digit(last.to_digit(10).unwrap() + 1, 10).unwrap());
    assert_eq!(parse_number(&past), None);
    assert_eq!(parse_number(&format!("{}0", largest)), None);
    assert_eq!(parse_number("99999999999999999999999999999999999999999"), None);
    assert_eq!(parse_number("99999999999999999999999999999999999999999x"), None);
}

#[test]
fn parse_number_agrees_with_the_standard_library() {
    for word in ["12", "+12", "-12", "", "+", "12a", "18446744073709551615", "18446744073709551616"] {
        assert_eq!(parse_number(word), word.parse::<usize>().ok());
    }
}

#[test]
fn to_decimal_writes_numbers() {
    assert_eq!(to_decimal(0), "0");
    assert_eq!(to_decimal(7), "7");
    assert_eq!(to_decimal(9), "9");
    assert_eq!(to_decimal(10), "10");
    assert_eq!(to_decimal(11), "11");
    assert_eq!(to_decimal(100), "100");
    assert_eq!(to_decimal(1234567890), "1234567890");
    assert_eq!(to_decimal(usize::MAX), usize::MAX.to_string());
}

#[test]
fn to_decimal_and_parse_number_undo_each_other() {
    for number in [0usize, 1, 9, 10, 99, 100, 101, 65535, 65536, usize::MAX - 1, usize::MAX] {
        assert_eq!(parse_number(&to_decimal(number)), Some(number));
    }
}
