use basic_auth::text::{
    chars_of, find_first, is_whitespace_char, next_token, range_equals, skip_token,
    skip_whitespace, skip_whitespace_back, trim_bounds,
};

fn corpus() -> Vec<String> {
    let pieces = ["", " ", "a", "\t\n", "Basic", "\u{3000}", "b\u{a0}c", "\u{200b}", "\u{1f600}", "x y"];
    let mut all = Vec::new();
    for first in pieces {
        for second in pieces {
            for third in pieces {
                all.push(format!("{}{}{}", first, second, third));
            }
        }
    }
    all
}

fn text_of(chars: &[char]) -> String {
    chars.iter().collect()
}

#[test]
fn whitespace_is_what_the_standard_library_calls_whitespace() {
    let mut white = 0;
    for code in 0..=0x10ffffu32 {
        if let Some(c) = char::from_u32(code) {
            assert_eq!(is_whitespace_char(c), c.is_whitespace(), "U+{:04X}", code);
            if is_whitespace_char(c) {
                white += 1;
            }
        }
    }
    assert_eq!(white, 25);
}

#[test]
fn whitespace_examples() {
    for c in [' ', '\t', '\n', '\u{b}', '\u{c}', '\r', '\u{85}', '\u{a0}', '\u{1680}', '\u{2000}', '\u{200a}', '\u{2028}', '\u{2029}', '\u{202f}', '\u{205f}', '\u{3000}'] {
        assert!(is_whitespace_char(c), "{:?}", c);
    }
    for c in ['a', ':', '=', '\u{0}', '\u{8}', '\u{e}', '\u{1f}', '\u{7f}', '\u{180e}', '\u{200b}', '\u{200d}', '\u{2060}', '\u{feff}', '\u{1fff}', '\u{2010}'] {
        assert!(!is_whitespace_char(c), "{:?}", c);
    }
}

#[test]
fn chars_are_collected_in_order() {
    assert_eq!(chars_of(""), Vec::<char>::new());
    assert_eq!(chars_of("a\u{e9}\u{1f600} z"), vec!['a', '\u{e9}', '\u{1f600}', ' ', 'z']);
    for text in corpus() {
        assert_eq!(chars_of(&text), text.chars().collect::<Vec<char>>());
    }
}

#[test]
fn skipping_whitespace_stops_at_the_first_other_character() {
    let chars = chars_of(" \t ab c  ");
    assert_eq!(skip_whitespace(&chars, 0, chars.len()), 3);
    assert_eq!(skip_whitespace(&chars, 3, chars.len()), 3);
    assert_eq!(skip_whitespace(&chars, 5, chars.len()), 6);
    assert_eq!(skip_whitespace(&chars, 7, chars.len()), 9);
    assert_eq!(skip_whitespace(&chars, 0, 2), 2);
    assert_eq!(skip_whitespace(&chars, 9, 9), 9);
}

#[test]
fn skipping_whitespace_backwards_stops_after_the_last_other_character() {
    let chars = chars_of(" \t ab c  ");
    assert_eq!(skip_whitespace_back(&chars, 0, chars.len()), 7);
    assert_eq!(skip_whitespace_back(&chars, 0, 7), 7);
    assert_eq!(skip_whitespace_back(&chars, 0, 6), 5);
    assert_eq!(skip_whitespace_back(&chars, 0, 3), 0);
    assert_eq!(skip_whitespace_back(&chars, 2, 3), 2);
    assert_eq!(skip_whitespace_back(&chars, 0, 0), 0);
}

#[test]
fn skipping_a_token_stops_at_the_first_whitespace() {
    let chars = chars_of("ab c\u{3000}");
    assert_eq!(skip_token(&chars, 0, chars.len()), 2);
    assert_eq!(skip_token(&chars, 2, chars.len()), 2);
    assert_eq!(skip_token(&chars, 3, chars.len()), 4);
    assert_eq!(skip_token(&chars, 0, 1), 1);
    assert_eq!(skip_token(&chars, 5, 5), 5);
}

#[test]
fn trimming_agrees_with_the_standard_library() {
    for text in corpus() {
        let chars = chars_of(&text);
        let (start, end) = trim_bounds(&chars, 0, chars.len());
        assert!(start <= end && end <= chars.len());
        assert_eq!(text_of(&chars[start..end]), text.trim(), "{:?}", text);
        let stop = skip_whitespace(&chars, 0, chars.len());
        assert_eq!(text_of(&chars[stop..]), text.trim_start(), "{:?}", text);
        let stop = skip_whitespace_back(&chars, 0, chars.len());
        assert_eq!(text_of(&chars[..stop]), text.trim_end(), "{:?}", text);
    }
}

#[test]
fn trimming_a_range_looks_at_that_range_only() {
    let chars = chars_of("  ab  :  cd  ");
    assert_eq!(trim_bounds(&chars, 0, 6), (2, 4));
    assert_eq!(trim_bounds(&chars, 7, chars.len()), (9, 11));
    assert_eq!(trim_bounds(&chars, 4, 6), (6, 6));
    assert_eq!(trim_bounds(&chars, 3, 10), (3, 10));
}

#[test]
fn tokens_agree_with_the_standard_library() {
    for text in corpus() {
        let chars = chars_of(&text);
        let mut found = Vec::new();
        let mut from = 0;
        while let Some((start, end)) = next_token(&chars, from) {
            assert!(from <= start && start < end && end <= chars.len());
            found.push(text_of(&chars[start..end]));
            from = end;
        }
        let expected: Vec<String> = text.split_whitespace().map(|token| token.to_string()).collect();
        assert_eq!(found, expected, "{:?}", text);
    }
}

#[test]
fn next_token_gives_bounds() {
    let chars = chars_of("  Basic   abc= ");
    assert_eq!(next_token(&chars, 0), Some((2, 7)));
    assert_eq!(next_token(&chars, 4), Some((4, 7)));
    assert_eq!(next_token(&chars, 7), Some((10, 14)));
    assert_eq!(next_token(&chars, 14), None);
    assert_eq!(next_token(&chars, chars.len()), None);
    assert_eq!(next_token(&Vec::new(), 0), None);
}

#[test]
fn ranges_are_compared_with_words() {
    let chars = chars_of("xBasic Basi");
    let word = chars_of("Basic");
    assert!(range_equals(&chars, 1, 6, &word));
    assert!(!range_equals(&chars, 0, 5, &word));
    assert!(!range_equals(&chars, 1, 5, &word));
    assert!(!range_equals(&chars, 1, 7, &word));
    assert!(!range_equals(&chars, 7, 11, &word));
    assert!(range_equals(&chars, 3, 3, &Vec::new()));
    assert!(!range_equals(&chars, 3, 4, &Vec::new()));
}

#[test]
fn first_occurrence_is_found() {
    assert_eq!(find_first(&chars_of("a:b:c"), ':'), Some(1));
    assert_eq!(find_first(&chars_of(":"), ':'), Some(0));
    assert_eq!(find_first(&chars_of("\u{e9}\u{1f600}:"), ':'), Some(2));
    assert_eq!(find_first(&chars_of("abc"), ':'), None);
    assert_eq!(find_first(&chars_of(""), ':'), None);
    for text in corpus() {
        let expected = text.chars().position(|c| c == 'a');
        assert_eq!(find_first(&chars_of(&text), 'a'), expected, "{:?}", text);
    }
}
