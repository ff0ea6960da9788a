use handlr_regex::text::{
    chars_of, compare_chars, compare_text, first_index_of, holds_text, join_strings, split_chars,
    string_of, string_of_range, trim_chars, trim_end, unique_tokens, Order,
};

fn chars(s: &str) -> Vec<char> {
    s.chars().collect()
}

fn strings(v: &[&str]) -> Vec<String> {
    v.iter().map(|s| s.to_string()).collect()
}

#[test]
fn strings_and_characters() {
    assert_eq!(chars_of("añb"), vec!['a', 'ñ', 'b']);
    assert_eq!(chars_of(""), Vec::<char>::new());
    assert_eq!(string_of(&chars("héllo")), "héllo");
    assert_eq!(string_of_range(&chars("héllo"), 1, 3), "él");
    assert_eq!(string_of_range(&chars("héllo"), 2, 2), "");
}

#[test]
fn texts_are_split_at_each_separator() {
    let split = |s: &str| -> Vec<String> {
        split_chars(&chars(s), ';').iter().map(|p| p.iter().collect()).collect()
    };
    assert_eq!(split("a;b;c"), strings(&["a", "b", "c"]));
    assert_eq!(split("a;b;"), strings(&["a", "b", ""]));
    assert_eq!(split(";a;;b"), strings(&["", "a", "", "b"]));
    assert_eq!(split(""), strings(&[""]));
    assert_eq!(split("abc"), strings(&["abc"]));
    assert_eq!(first_index_of(&chars("a=b=c"), '='), 1);
    assert_eq!(first_index_of(&chars("abc"), '='), 3);
}

#[test]
fn tokens_are_the_non_empty_pieces_kept_once() {
    let pieces: Vec<Vec<char>> = ["b", "", "a", "b", "c", "a", ""].iter().map(|s| chars(s)).collect();
    assert_eq!(unique_tokens(&pieces), strings(&["b", "a", "c"]));
    assert_eq!(unique_tokens(&Vec::new()), Vec::<String>::new());
    assert!(holds_text(&strings(&["a", "b"]), &"b".to_string()));
    assert!(!holds_text(&strings(&["a", "b"]), &"c".to_string()));
}

#[test]
fn strings_are_joined_with_the_separator_between() {
    assert_eq!(join_strings(&strings(&["a", "b", "c"]), ", "), "a, b, c");
    assert_eq!(join_strings(&strings(&["a"]), ", "), "a");
    assert_eq!(join_strings(&strings(&[]), ", "), "");
    assert_eq!(join_strings(&strings(&["", ""]), "-"), "-");
}

#[test]
fn texts_are_ordered_by_their_characters() {
    assert_eq!(compare_text("abc", "abd"), Order::Less);
    assert_eq!(compare_text("abd", "abc"), Order::Greater);
    assert_eq!(compare_text("abc", "abc"), Order::Equal);
    assert_eq!(compare_text("ab", "abc"), Order::Less);
    assert_eq!(compare_text("abc", "ab"), Order::Greater);
    assert_eq!(compare_text("", ""), Order::Equal);
    assert_eq!(compare_text("", "a"), Order::Less);
    assert_eq!(compare_text("Z", "a"), Order::Less);
    assert_eq!(compare_chars(&chars("text/plain"), &chars("text/html")), Order::Greater);
    for (a, b) in [("video/*", "video/mp4"), ("a/b", "a/b+c"), ("é", "z"), ("x-a", "x/a")] {
        let expected = match a.cmp(b) {
            std::cmp::Ordering::Less => Order::Less,
            std::cmp::Ordering::Equal => Order::Equal,
            std::cmp::Ordering::Greater => Order::Greater,
        };
        assert_eq!(compare_text(a, b), expected);
    }
}

#[test]
fn white_space_is_trimmed() {
    assert_eq!(trim_chars(&chars("  a b \t\n")), "a b");
    assert_eq!(trim_chars(&chars("a")), "a");
    assert_eq!(trim_chars(&chars(" \u{2003}\u{a0} ")), "");
    assert_eq!(trim_chars(&chars("")), "");
    assert_eq!(trim_end("  a b \r\n"), "  a b");
    assert_eq!(trim_end("\n"), "");
    assert_eq!(trim_end("a"), "a");
}
