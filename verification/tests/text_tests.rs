use retro::text::{
    chars_of, contains_chars, first_whitespace, parse_indices, parse_usize_range, push_decimal,
    push_padded, remove_chars, same_text, string_from_chars, whitespace,
};

fn chars(s: &str) -> Vec<char> {
    s.chars().collect()
}

#[test]
fn indices_are_read_between_white_space() {
    assert_eq!(parse_indices(&chars("1 2 3"), 0), vec![1, 2, 3]);
    assert_eq!(parse_indices(&chars("1  x 07 +4 -5"), 0), vec![1, 7, 4]);
    assert_eq!(parse_indices(&chars(""), 0), Vec::<usize>::new());
    assert_eq!(parse_indices(&chars("g 5\t6"), 2), vec![5, 6]);
    assert_eq!(parse_indices(&chars("99999999999999999999999 1"), 0), vec![1]);
}

#[test]
fn usize_parsing_follows_str_parse() {
    for t in ["0", "42", "+3", "", "+", "-1", "1a", "007", "18446744073709551616"] {
        let cs = chars(t);
        assert_eq!(parse_usize_range(&cs, 0, cs.len()), t.parse::<usize>().ok(), "{}", t);
    }
}

#[test]
fn white_space_matches_std() {
    for c in [' ', '\t', '\n', '\u{A0}', '\u{2003}', '\u{3000}', 'a', '_', '\u{200B}'] {
        assert_eq!(whitespace(c), c.is_whitespace(), "{:?}", c);
    }
    assert_eq!(first_whitespace(&chars("vote 1")), Some(4));
    assert_eq!(first_whitespace(&chars("vote")), None);
}

#[test]
fn patterns_are_found_and_removed_like_str() {
    let s = chars("a:)b:):(");
    assert!(contains_chars(&s, &chars(":)")));
    assert!(!contains_chars(&s, &chars(")(:")));
    assert!(contains_chars(&s, &chars("")));
    let removed = remove_chars(&s, &chars(":)"));
    assert_eq!(string_from_chars(&removed), "a:)b:):(".replace(":)", ""));
    let odd = chars("aaa");
    assert_eq!(string_from_chars(&remove_chars(&odd, &chars("aa"))), "aaa".replace("aa", ""));
}

#[test]
fn decimals_and_padding() {
    let mut s = String::new();
    push_decimal(&mut s, 0);
    push_decimal(&mut s, 907);
    assert_eq!(s, "0907");
    let mut p = String::from("<");
    push_padded(&mut p, "ab", 5);
    assert_eq!(p, format!("<{:<5}", "ab"));
    let mut q = String::new();
    push_padded(&mut q, "éèêëabc", 4);
    assert_eq!(q, format!("{:<4}", "éèêëabc"));
}

#[test]
fn text_comparison() {
    assert!(same_text("abc", "abc"));
    assert!(!same_text("abc", "abd"));
    assert!(!same_text("ab", "abc"));
    assert_eq!(chars_of("héllo"), chars("héllo"));
}
