use dsh_desktop::text::{
    chars_of, copy_optional, cut_after, cut_before, decimal_of, find, has, has_prefix,
    is_white_space, matches_at, next_line, next_word, parse_u16, push_chars, push_text, same_chars,
    same_text, string_of, trim, trim_end, trim_start,
};

fn all_lines(text: &str) -> Vec<String> {
    let chars = chars_of(text);
    let mut rest: &[char] = &chars;
    let mut out = Vec::new();
    while !rest.is_empty() {
        let (line, next) = next_line(rest);
        out.push(string_of(line));
        rest = next;
    }
    out
}

fn all_words(text: &str) -> Vec<String> {
    let chars = chars_of(text);
    let mut rest: &[char] = &chars;
    let mut out = Vec::new();
    while let Some((word, next)) = next_word(rest) {
        out.push(string_of(word));
        rest = next;
    }
    out
}

fn number(text: &str) -> Option<u16> {
    parse_u16(&chars_of(text))
}

#[test]
fn white_space_is_that_of_std() {
    for c in '\0'..=char::MAX {
        assert_eq!(is_white_space(c), c.is_whitespace(), "{:?}", c);
    }
}

#[test]
fn strings_are_taken_apart_and_put_together() {
    assert_eq!(chars_of("a…b"), vec!['a', '…', 'b']);
    assert_eq!(string_of(&['x', '鲸', 'y']), "x鲸y");
    let mut s = String::from("ab");
    push_chars(&mut s, &['c', 'd']);
    push_text(&mut s, "ef");
    assert_eq!(s, "abcdef");
    assert_eq!(copy_optional(&Some("k".to_string())), Some("k".to_string()));
    assert_eq!(copy_optional(&None), None);
}

#[test]
fn equality_of_texts() {
    assert!(same_text("show", "show"));
    assert!(!same_text("show", "shown"));
    assert!(!same_text("show", "shop"));
    assert!(same_text("", ""));
    assert!(same_chars(&['a'], &['a']));
    assert!(!same_chars(&['a'], &['b']));
}

#[test]
fn searching_finds_the_leftmost() {
    let text = chars_of("xabab");
    assert_eq!(find(&text, &['a', 'b']), Some(1));
    assert_eq!(find(&text, &['b', 'b']), None);
    assert_eq!(find(&text, &[]), Some(0));
    assert_eq!(find(&[], &['a']), None);
    assert!(has(&text, &['b', 'a', 'b']));
    assert!(has_prefix(&text, &['x', 'a']));
    assert!(!has_prefix(&text, &['a']));
    assert!(matches_at(&text, &['a', 'b'], 3));
    assert!(!matches_at(&text, &['a', 'b'], 4));
    assert!(!matches_at(&text, &['a'], 9));
    assert_eq!(string_of(cut_before(&text, &['b'])), "xa");
    assert_eq!(string_of(cut_before(&text, &['z'])), "xabab");
    assert_eq!(cut_after(&text, &['b']).map(string_of), Some("ab".to_string()));
    assert_eq!(cut_after(&text, &['z']), None);
}

#[test]
fn trimming_agrees_with_std() {
    for text in [
        "", " ", "a", " a ", "\t a b \r\n", "\u{3000}x\u{a0}", "\u{200b}y", "x\u{85}",
    ] {
        let chars = chars_of(text);
        assert_eq!(string_of(trim(&chars)), text.trim());
        assert_eq!(string_of(trim_start(&chars)), text.trim_start());
        assert_eq!(string_of(trim_end(&chars)), text.trim_end());
    }
}

#[test]
fn lines_agree_with_std() {
    for text in [
        "", "\n", "a", "a\n", "a\r\n", "a\r", "a\nb", "a\r\nb\r\n\r\n", "\r\r\n", "\n\nx", "a\rb\n",
    ] {
        let expected: Vec<String> = text.lines().map(|l| l.to_string()).collect();
        assert_eq!(all_lines(text), expected, "{:?}", text);
    }
}

#[test]
fn words_agree_with_std() {
    for text in ["", "  ", "a", " a  b ", "HTTP/1.1 200 OK\r\nX: y", "\u{3000}q\u{2028}r"] {
        let expected: Vec<String> = text.split_whitespace().map(|w| w.to_string()).collect();
        assert_eq!(all_words(text), expected, "{:?}", text);
    }
}

#[test]
fn numbers_are_read_as_by_std() {
    for text in [
        "", "+", "-", "-0", "0", "+0", "00080", "65535", "65536", "+65535", "99999999999999999999",
        "3 ", " 3", "3a", "٣", "++1", "655350",
    ] {
        assert_eq!(number(text), text.parse::<u16>().ok(), "{:?}", text);
    }
    assert_eq!(number("3499"), Some(3499));
}

#[test]
fn decimal_reads_back() {
    for n in 0..=u16::MAX {
        let text = decimal_of(n);
        assert_eq!(text, n.to_string());
        assert_eq!(number(&text), Some(n));
    }
}
