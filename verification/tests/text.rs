use ttparser::text::{
    chars_of, contains, contains_word, find, find_from, in_margin, is_blank, is_word, matches_at,
    owned, remove_char, same, slice, split_lines, split_words, starts_with, starts_with_word,
    string_of, tail_after, to_decimal, trim, trim_by,
};

fn chars(s: &str) -> Vec<char> {
    chars_of(s)
}

fn strings(parts: &Vec<Vec<char>>) -> Vec<String> {
    parts.iter().map(string_of).collect()
}

#[test]
fn characters_go_to_a_vector_and_back() {
    assert_eq!(chars("aé#"), vec!['a', 'é', '#']);
    assert_eq!(string_of(&vec!['ü', 'b']), "üb");
    assert_eq!(string_of(&chars("")), "");
    assert_eq!(owned("color0"), "color0");
}

#[test]
fn white_space_is_what_unicode_says_it_is() {
    for c in ['\t', '\n', '\u{b}', '\u{c}', '\r', ' ', '\u{85}', '\u{a0}', '\u{1680}', '\u{2000}', '\u{200a}', '\u{2028}', '\u{2029}', '\u{202f}', '\u{205f}', '\u{3000}'] {
        assert!(is_blank(c));
    }
    for c in ['a', '#', '"', ':', '\u{8}', '\u{e}', '\u{200b}', '\u{feff}', '\u{180e}'] {
        assert!(!is_blank(c));
    }
    for code in 0..0x3100u32 {
        if let Some(c) = char::from_u32(code) {
            assert_eq!(is_blank(c), c.is_whitespace());
        }
    }
}

#[test]
fn a_margin_is_white_space_with_or_without_quotes_and_colons() {
    assert!(in_margin(' ', false));
    assert!(!in_margin('"', false));
    assert!(!in_margin(':', false));
    assert!(in_margin(' ', true));
    assert!(in_margin('"', true));
    assert!(in_margin(':', true));
    assert!(!in_margin('\'', true));
    assert!(!in_margin('#', true));
}

#[test]
fn trim_removes_white_space_at_both_ends() {
    assert_eq!(string_of(&trim(&chars(" \t a b\u{3000}\r\n"))), "a b");
    assert_eq!(string_of(&trim(&chars("   "))), "");
    assert_eq!(string_of(&trim(&chars(""))), "");
    assert_eq!(string_of(&trim(&chars("a"))), "a");
}

#[test]
fn trim_by_removes_the_chosen_margin() {
    assert_eq!(string_of(&trim_by(&chars(": \"#a \"b\" \t"), true)), "#a \"b");
    assert_eq!(string_of(&trim_by(&chars(": \"#a \"b\" \t"), false)), ": \"#a \"b\"");
    assert_eq!(string_of(&trim_by(&chars(":\" :"), true)), "");
}

#[test]
fn a_slice_is_cut_by_its_bounds() {
    assert_eq!(string_of(&slice(&chars("abcdef"), 2, 4)), "cd");
    assert_eq!(string_of(&slice(&chars("abcdef"), 0, 6)), "abcdef");
    assert_eq!(string_of(&slice(&chars("abcdef"), 3, 3)), "");
}

#[test]
fn find_gives_the_first_place_or_the_length() {
    assert_eq!(find(&chars("a:b:c"), ':'), 1);
    assert_eq!(find(&chars("abc"), ':'), 3);
    assert_eq!(find(&chars(""), ':'), 0);
    assert_eq!(find_from(&chars("a:b:c"), ':', 2), 3);
    assert_eq!(find_from(&chars("a:b:c"), ':', 1), 1);
    assert_eq!(find_from(&chars("a:b:c"), ':', 4), 5);
    assert_eq!(find_from(&chars("a:b:c"), ':', 5), 5);
}

#[test]
fn lines_are_cut_at_line_feeds() {
    assert_eq!(strings(&split_lines(&chars("a\n\nb\n"))), vec!["a", "", "b", ""]);
    assert_eq!(strings(&split_lines(&chars("a\r\nb"))), vec!["a\r", "b"]);
    assert_eq!(strings(&split_lines(&chars(""))), vec![""]);
    assert_eq!(strings(&split_lines(&chars("\n"))), vec!["", ""]);
}

#[test]
fn words_are_cut_at_white_space() {
    assert_eq!(strings(&split_words(&chars("  color0   #fff  x "))), vec!["color0", "#fff", "x"]);
    assert_eq!(strings(&split_words(&chars("one"))), vec!["one"]);
    assert_eq!(strings(&split_words(&chars("a\tb\u{a0}c\nd"))), vec!["a", "b", "c", "d"]);
    assert!(split_words(&chars(" \t ")).is_empty());
    assert!(split_words(&chars("")).is_empty());
}

#[test]
fn a_character_is_taken_out_wherever_it_stands() {
    assert_eq!(string_of(&remove_char(&chars("#a#b##"), '#')), "ab");
    assert_eq!(string_of(&remove_char(&chars("ab"), '#')), "ab");
    assert_eq!(string_of(&remove_char(&chars("###"), '#')), "");
}

#[test]
fn a_text_is_found_where_it_stands() {
    let hay = chars("cursor_text_color");
    assert!(matches_at(&hay, &chars("text"), 7));
    assert!(!matches_at(&hay, &chars("text"), 6));
    assert!(!matches_at(&hay, &chars("color"), 13));
    assert!(matches_at(&hay, &chars(""), 17));
    assert!(!matches_at(&hay, &chars(""), 18));
    assert!(contains(&hay, &chars("color")));
    assert!(contains(&hay, &chars("cursor")));
    assert!(contains(&hay, &chars("")));
    assert!(!contains(&hay, &chars("colour")));
    assert!(!contains(&chars("col"), &chars("color")));
    assert!(contains_word(&hay, "r_t"));
    assert!(!contains_word(&hay, "background"));
    assert!(starts_with(&hay, &chars("cursor")));
    assert!(!starts_with(&hay, &chars("text")));
    assert!(starts_with_word(&hay, ""));
    assert!(!starts_with_word(&chars("cur"), "cursor"));
    assert!(same(&hay, &chars("cursor_text_color")));
    assert!(!same(&hay, &chars("cursor_text_colo")));
    assert!(!same(&hay, &chars("cursor_text_colos")));
    assert!(is_word(&hay, "cursor_text_color"));
    assert!(!is_word(&hay, "cursor"));
}

#[test]
fn the_tail_follows_the_last_separator() {
    assert_eq!(string_of(&tail_after(&chars("/a/b/c.yml"), '/')), "c.yml");
    assert_eq!(string_of(&tail_after(&chars("c.tar.gz"), '.')), "gz");
    assert_eq!(string_of(&tail_after(&chars("name"), '.')), "name");
    assert_eq!(string_of(&tail_after(&chars("dir/"), '/')), "");
    assert_eq!(string_of(&tail_after(&chars(""), '/')), "");
}

#[test]
fn numbers_are_written_in_base_ten() {
    assert_eq!(string_of(&to_decimal(0)), "0");
    assert_eq!(string_of(&to_decimal(9)), "9");
    assert_eq!(string_of(&to_decimal(10)), "10");
    assert_eq!(string_of(&to_decimal(15)), "15");
    assert_eq!(string_of(&to_decimal(1203)), "1203");
    assert_eq!(string_of(&to_decimal(usize::MAX)), usize::MAX.to_string());
}
