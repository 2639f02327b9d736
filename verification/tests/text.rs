use settings_ui::text::{
    byte_len, chars_of, compare_chars, contains_text, find_chars, i32_to_text, piece, replace_star,
    split_lines, trim_text, Comparison,
};

#[test]
fn substring_search() {
    assert!(contains_text("database-password", "pass"));
    assert!(!contains_text("database-password", "Pass"));
    assert!(contains_text("abc", ""));
    assert!(!contains_text("", "a"));
    let t = chars_of("abcabc");
    assert_eq!(find_chars(&t, &chars_of("ca")), Some(2));
    assert_eq!(find_chars(&t, &chars_of("bc")), Some(1));
    assert_eq!(find_chars(&t, &chars_of("x")), None);
    assert_eq!(find_chars(&t, &chars_of("")), Some(0));
}

#[test]
fn decimal_text() {
    assert_eq!(i32_to_text(0), "0");
    assert_eq!(i32_to_text(7), "7");
    assert_eq!(i32_to_text(10), "10");
    assert_eq!(i32_to_text(-305), "-305");
    assert_eq!(i32_to_text(i32::MIN), i32::MIN.to_string());
}

#[test]
fn text_order() {
    assert!(compare_chars(&chars_of("abc"), &chars_of("abd")) == Comparison::Less);
    assert!(compare_chars(&chars_of("ab"), &chars_of("abc")) == Comparison::Less);
    assert!(compare_chars(&chars_of("b"), &chars_of("abc")) == Comparison::Greater);
    assert!(compare_chars(&chars_of("x"), &chars_of("x")) == Comparison::Same);
    assert!(compare_chars(&chars_of("Z"), &chars_of("a")) == Comparison::Less);
}

#[test]
fn lines() {
    assert_eq!(split_lines("a\nb"), vec!["a".to_string(), "b".to_string()]);
    assert_eq!(split_lines(""), vec!["".to_string()]);
    assert_eq!(split_lines("a\n"), vec!["a".to_string(), "".to_string()]);
    assert_eq!(split_lines("\n\nx"), vec!["".to_string(), "".to_string(), "x".to_string()]);
    let text = "k: ${a}\nz: 1\r\n";
    assert_eq!(split_lines(text), text.split('\n').map(|l| l.to_string()).collect::<Vec<_>>());
}

#[test]
fn stars_replaced() {
    assert_eq!(replace_star("*.example.com", "shop"), "shop.example.com");
    assert_eq!(replace_star("*-*", "a"), "a-a");
    assert_eq!(replace_star("plain", "a"), "plain");
    assert_eq!(replace_star("", "a"), "");
}

#[test]
fn lengths_and_pieces() {
    assert_eq!(byte_len("abc"), 3);
    assert_eq!(byte_len("é"), 2);
    assert_eq!(piece("héllo", 1, 3), "él");
}

#[test]
fn lines_join_back() {
    for text in ["", "a", "a\nb", "\n", "x\n\ny\n"] {
        assert_eq!(split_lines(text).join("\n"), text);
    }
}

#[test]
fn trimming_drops_unicode_white_space_only_at_the_ends() {
    assert_eq!(trim_text("\u{3000} name\t\n"), "name");
    assert_eq!(trim_text("\u{85}a b\u{a0}"), "a b");
    assert_eq!(trim_text("\u{2028}\u{2029}"), "");
    assert_eq!(trim_text(""), "");
    assert_eq!(trim_text("x\u{200b}"), "x\u{200b}");
    for t in ["  a ", "\u{1680}b\u{205f}", "\r\nc d\u{202f}", "\u{feff}e"] {
        assert_eq!(trim_text(t), t.trim());
    }
}
