use ttparser::colors::Base16Colors;
use ttparser::theme_parser::{
    alacritty_colors_to_base16_colors, apply_directive, check_color, colors_from_document,
    kitty_colors_to_base16_colors, names_keyed_lines, read_keyed_lines, read_tables,
    AlacrittyColorsBright, AlacrittyColorsNormal, Document, ParseError, Section,
};

const NAMES: [&str; 8] = ["black", "red", "green", "yellow", "blue", "magenta", "cyan", "white"];

const PALETTE: [&str; 16] = [
    "15161e", "f7768e", "9ece6a", "e0af68", "7aa2f7", "bb9af7", "7dcfff", "a9b1d6", "414868",
    "ff7a93", "b9f27c", "ff9e64", "7da6ff", "bb9af8", "0db9d7", "c0caf5",
];

fn value<'a>(colors: &'a Base16Colors, key: &str) -> Option<&'a str> {
    colors.get(key).map(|v| v.as_str())
}

fn keyed_theme() -> String {
    let mut text = String::from("# Tokyo Night\ncolors:\n  primary:\n");
    text.push_str("    background: \"#1a1b26\"\n    foreground: \"#c0caf5\"\n");
    text.push_str("  normal:\n");
    for i in 0..8 {
        text.push_str(&format!("    {}: \"#{}\"\n", NAMES[i], PALETTE[i]));
    }
    text.push_str("  bright:\n");
    for i in 0..8 {
        text.push_str(&format!("    {}: '#{}'\n", NAMES[i], PALETTE[8 + i]));
    }
    text
}

fn table_theme() -> String {
    let mut text = String::from("[colors.primary]\nbackground = \"#1a1b26\"\nforeground = \"#c0caf5\"\n");
    text.push_str("[colors.cursor]\ntext = \"#1a1b26\"\ncursor = \"#c0caf5\"\n");
    text.push_str("[colors.normal]\n");
    for i in (0..8).rev() {
        text.push_str(&format!("{} = \"#{}\"\n", NAMES[i], PALETTE[i]));
    }
    text.push_str("orange = \"#ff9e64\"\n");
    text.push_str("[colors.bright]\n");
    for i in 0..8 {
        text.push_str(&format!("{} = \"#{}\"\n", NAMES[i], PALETTE[8 + i]));
    }
    text
}

#[test]
fn keyed_lines_fill_the_named_slots_without_quotes_and_marks() {
    let colors = read_keyed_lines(&keyed_theme());
    assert_eq!(value(&colors, "background"), Some("1a1b26"));
    assert_eq!(value(&colors, "foreground"), Some("c0caf5"));
    assert_eq!(value(&colors, "color0"), Some(PALETTE[0]));
}

#[test]
fn keyed_lines_number_the_leaf_colors_in_file_order() {
    let colors = read_keyed_lines(&keyed_theme());
    for i in 0..16 {
        assert_eq!(value(&colors, &format!("color{}", i)), Some(PALETTE[i]));
    }
    assert_eq!(colors.len(), 18);
    assert!(!colors.contains_key("color16"));
}

#[test]
fn keyed_lines_go_by_position_and_not_by_name() {
    let colors = read_keyed_lines("normal:\n  white: '#ffffff'\n  black: '#000000'\n");
    assert_eq!(value(&colors, "color0"), Some("ffffff"));
    assert_eq!(value(&colors, "color1"), Some("000000"));
}

#[test]
fn keyed_lines_count_past_the_sixteenth_color() {
    let mut text = String::new();
    for i in 0..18 {
        text.push_str(&format!("c{}: #{:06x}\n", i, i));
    }
    let colors = read_keyed_lines(&text);
    assert_eq!(value(&colors, "color16"), Some("000010"));
    assert_eq!(value(&colors, "color17"), Some("000011"));
}

#[test]
fn keyed_lines_pass_over_comments_headers_and_lines_without_a_separator() {
    let colors = read_keyed_lines("# red: '#ff0000'\n---\ncolors:\n  primary:\n  normal:\n  bright:\n\n");
    assert!(colors.is_empty());
}

#[test]
fn keyed_lines_read_text_as_the_cursor_foreground() {
    let colors = read_keyed_lines("  cursor:\n    text: \"#111111\"\n    cursor: \"#eeeeee\"\n");
    assert_eq!(value(&colors, "cursor_fg"), Some("111111"));
    assert_eq!(value(&colors, "cursor"), Some("eeeeee"));
    assert!(!colors.contains_key("text"));
}

#[test]
fn keyed_lines_keep_the_last_value_of_a_slot() {
    let colors = read_keyed_lines("background: '#000000'\nbackground: '#ffffff'\n");
    assert_eq!(value(&colors, "background"), Some("ffffff"));
    assert_eq!(colors.len(), 1);
}

#[test]
fn keyed_lines_do_not_validate_values() {
    let colors = read_keyed_lines("background: not a color\r\n");
    assert_eq!(value(&colors, "background"), Some("not a color"));
}

#[test]
fn keyed_lines_take_a_key_with_trailing_space_for_a_leaf_color() {
    let colors = read_keyed_lines("background : '#000000'\n");
    assert_eq!(value(&colors, "color0"), Some("000000"));
    assert!(!colors.contains_key("background"));
}

#[test]
fn color_names_follow_the_ansi_order() {
    for i in 0..8 {
        assert_eq!(AlacrittyColorsNormal::from_str(NAMES[i]).map(|c| c.index()), Some(i));
        assert_eq!(AlacrittyColorsBright::from_str(NAMES[i]).map(|c| c.index()), Some(8 + i));
    }
    assert_eq!(AlacrittyColorsNormal::from_str("red"), Some(AlacrittyColorsNormal::Red));
    assert_eq!(AlacrittyColorsBright::from_str("cyan"), Some(AlacrittyColorsBright::Cyan));
    assert_eq!(AlacrittyColorsNormal::from_str("Red"), None);
    assert_eq!(AlacrittyColorsNormal::from_str("orange"), None);
    assert_eq!(AlacrittyColorsBright::from_str(""), None);
}

#[test]
fn tables_fill_the_palette_by_name() {
    let colors = read_tables(&table_theme()).unwrap();
    for i in 0..16 {
        assert_eq!(value(&colors, &format!("color{}", i)), Some(PALETTE[i]));
    }
    assert_eq!(value(&colors, "background"), Some("1a1b26"));
    assert_eq!(value(&colors, "foreground"), Some("c0caf5"));
    assert_eq!(value(&colors, "cursor_fg"), Some("1a1b26"));
    assert_eq!(value(&colors, "cursor"), Some("c0caf5"));
    assert_eq!(colors.len(), 20);
}

#[test]
fn tables_that_are_no_document_are_an_error() {
    assert_eq!(read_tables("[colors").err(), Some(ParseError::MalformedDocument));
}

#[test]
fn tables_must_all_be_there() {
    assert_eq!(read_tables("").err(), Some(ParseError::MissingTable("colors".to_string())));
    assert_eq!(
        read_tables("colors = 3").err(),
        Some(ParseError::MissingTable("colors".to_string()))
    );
    assert_eq!(
        read_tables("[colors.bright]\n").err(),
        Some(ParseError::MissingTable("normal".to_string()))
    );
    assert_eq!(
        read_tables("[colors.normal]\n[colors.cursor]\n[colors.primary]\n").err(),
        Some(ParseError::MissingTable("bright".to_string()))
    );
    assert_eq!(
        read_tables("[colors.normal]\n[colors.bright]\n[colors.primary]\n").err(),
        Some(ParseError::MissingTable("cursor".to_string()))
    );
    assert_eq!(
        read_tables("[colors.normal]\n[colors.bright]\n[colors.cursor]\n").err(),
        Some(ParseError::MissingTable("primary".to_string()))
    );
    assert_eq!(
        read_tables("[colors]\nnormal = 1\n").err(),
        Some(ParseError::MissingTable("normal".to_string()))
    );
}

#[test]
fn tables_of_colors_hold_strings() {
    let text = "[colors.normal]\nred = 1\n[colors.bright]\n[colors.cursor]\n[colors.primary]\n";
    assert_eq!(read_tables(text).err(), Some(ParseError::NotText("red".to_string())));
    let text = "[colors.normal]\norange = 1\n[colors.bright]\n[colors.cursor]\nx = true\n[colors.primary]\n";
    assert_eq!(read_tables(text).err(), Some(ParseError::NotText("x".to_string())));
    let text = "[colors.normal]\n[colors.bright]\n[colors.cursor]\n[colors.primary]\n";
    assert!(read_tables(text).unwrap().is_empty());
}

fn leaf(key: &str, text: &str) -> (String, Option<String>) {
    (key.to_string(), Some(text.to_string()))
}

fn document(normal: Vec<(String, Option<String>)>, cursor: Vec<(String, Option<String>)>) -> Document {
    vec![
        ("window".to_string(), None),
        (
            "colors".to_string(),
            Some(vec![
                ("normal".to_string(), Some(normal)),
                ("bright".to_string(), Some(vec![leaf("white", "#FFFFFF")])),
                ("cursor".to_string(), Some(cursor)),
                ("primary".to_string(), Some(vec![leaf("background", "#101010")])),
            ]),
        ),
    ]
}

#[test]
fn documents_are_read_table_by_table() {
    let colors = colors_from_document(&document(
        vec![leaf("red", "#ff0000"), leaf("pink", "#ff00ff")],
        vec![leaf("cursor_fg", "#1"), leaf("text", "#2")],
    ))
    .unwrap();
    assert_eq!(value(&colors, "color1"), Some("ff0000"));
    assert_eq!(value(&colors, "color15"), Some("FFFFFF"));
    assert_eq!(value(&colors, "cursor_fg"), Some("2"));
    assert_eq!(value(&colors, "background"), Some("101010"));
    assert_eq!(colors.len(), 4);
}

#[test]
fn documents_fail_at_the_first_color_that_is_no_string() {
    let r = colors_from_document(&document(
        vec![leaf("red", "#ff0000"), ("blue".to_string(), None), ("green".to_string(), None)],
        vec![],
    ));
    assert_eq!(r.err(), Some(ParseError::NotText("blue".to_string())));
    let r = colors_from_document(&vec![("colors".to_string(), None)]);
    assert_eq!(r.err(), Some(ParseError::MissingTable("colors".to_string())));
}

#[test]
fn sections_name_their_slots() {
    assert_eq!(Section::Normal.key(), "normal");
    assert_eq!(Section::Primary.key(), "primary");
    assert_eq!(Section::Normal.slot(&"yellow".to_string()), Some("color3".to_string()));
    assert_eq!(Section::Bright.slot(&"yellow".to_string()), Some("color11".to_string()));
    assert_eq!(Section::Bright.slot(&"text".to_string()), None);
    assert_eq!(Section::Cursor.slot(&"text".to_string()), Some("cursor_fg".to_string()));
    assert_eq!(Section::Cursor.slot(&"cursor".to_string()), Some("cursor".to_string()));
    assert_eq!(Section::Primary.slot(&"text".to_string()), Some("text".to_string()));
}

#[test]
fn words_that_speak_of_a_color() {
    assert!(check_color("color7"));
    assert!(check_color("url_color"));
    assert!(check_color("cursor_text_color"));
    assert!(check_color("cursor"));
    assert!(check_color("background"));
    assert!(check_color("foreground"));
    assert!(check_color("the background."));
    assert!(!check_color("selection_background"));
    assert!(!check_color("background_opacity"));
    assert!(!check_color("foregrounds"));
    assert!(!check_color("ff00ff"));
    assert!(!check_color(""));
}

#[test]
fn directives_fill_the_slots_of_their_names() {
    let text = "\n# a theme\nfont_size 11\nbackground #1a1b26\nforeground  #c0caf5\n  color0 #15161e\nselection_background #33467c\nurl_color #73daca\ncolor15\n";
    let colors = kitty_colors_to_base16_colors(text).unwrap();
    assert_eq!(value(&colors, "background"), Some("1a1b26"));
    assert_eq!(value(&colors, "foreground"), Some("c0caf5"));
    assert_eq!(value(&colors, "color0"), Some("15161e"));
    assert_eq!(value(&colors, "url_color"), Some("73daca"));
    assert_eq!(colors.len(), 4);
}

#[test]
fn an_alias_takes_the_value_of_a_slot_filled_before() {
    let colors = kitty_colors_to_base16_colors("cursor_fg_ref #ff00ff\ncursor_text_color cursor_fg_ref\n").unwrap();
    assert_eq!(value(&colors, "cursor_fg"), Some("ff00ff"));
    assert_eq!(value(&colors, "cursor_fg_ref"), Some("ff00ff"));
}

#[test]
fn an_alias_takes_the_value_that_its_slot_holds_at_that_line() {
    let colors =
        kitty_colors_to_base16_colors("color1 #111111\ncolor9 color1\ncolor1 #222222\n").unwrap();
    assert_eq!(value(&colors, "color9"), Some("111111"));
    assert_eq!(value(&colors, "color1"), Some("222222"));
}

#[test]
fn an_alias_to_a_slot_filled_later_fails() {
    let r = kitty_colors_to_base16_colors("cursor_text_color cursor_fg_ref\ncursor_fg_ref #ff00ff\n");
    assert_eq!(
        r.err(),
        Some(ParseError::UnresolvedAlias {
            alias: "cursor_text_color".to_string(),
            target: "cursor_fg_ref".to_string(),
        })
    );
    let r = kitty_colors_to_base16_colors("color0 #000000\ncolor8 background\ncolor9 cursor\n");
    assert_eq!(
        r.err(),
        Some(ParseError::UnresolvedAlias {
            alias: "color8".to_string(),
            target: "background".to_string(),
        })
    );
}

#[test]
fn cursor_text_color_is_the_cursor_foreground() {
    let colors = kitty_colors_to_base16_colors("cursor_text_color #111111\n").unwrap();
    assert_eq!(value(&colors, "cursor_fg"), Some("111111"));
    assert!(!colors.contains_key("cursor_text_color"));
    let colors = kitty_colors_to_base16_colors("cursor #cccccc\ncursor_text_color cursor\n").unwrap();
    assert_eq!(value(&colors, "cursor_fg"), Some("cccccc"));
    let colors =
        kitty_colors_to_base16_colors("cursor_text_color #111111\ncolor0 cursor_text_color\n").unwrap();
    assert_eq!(value(&colors, "color0"), Some("111111"));
}

#[test]
fn a_directive_is_carried_out_as_told() {
    let mut colors = Base16Colors::new();
    assert_eq!(apply_directive(&mut colors, "color2", "00ff00", false), Ok(()));
    assert_eq!(apply_directive(&mut colors, "color10", "color2", true), Ok(()));
    assert_eq!(apply_directive(&mut colors, "background", "color2", false), Ok(()));
    assert_eq!(value(&colors, "color10"), Some("00ff00"));
    assert_eq!(value(&colors, "background"), Some("color2"));
    assert_eq!(
        apply_directive(&mut colors, "foreground", "color3", true),
        Err(ParseError::UnresolvedAlias {
            alias: "foreground".to_string(),
            target: "color3".to_string(),
        })
    );
    assert_eq!(colors.len(), 3);
}

#[test]
fn the_extension_tells_lines_from_tables() {
    assert!(names_keyed_lines("theme.yml"));
    assert!(names_keyed_lines("/home/me/.config/alacritty/tokyo.night.yaml"));
    assert!(!names_keyed_lines("theme.toml"));
    assert!(!names_keyed_lines("yaml"));
    assert!(!names_keyed_lines("themes.yml/tokyo"));
    assert!(!names_keyed_lines("yaml/theme.toml"));
    assert!(!names_keyed_lines("theme.YML"));
    assert!(!names_keyed_lines(""));
}

#[test]
fn an_alacritty_theme_is_read_by_its_extension() {
    let colors = alacritty_colors_to_base16_colors("tokyo.yml", &keyed_theme()).unwrap();
    assert_eq!(value(&colors, "color4"), Some(PALETTE[4]));
    let colors = alacritty_colors_to_base16_colors("tokyo.toml", &table_theme()).unwrap();
    assert_eq!(value(&colors, "color4"), Some(PALETTE[4]));
    assert_eq!(
        alacritty_colors_to_base16_colors("tokyo.toml", &keyed_theme()).err(),
        Some(ParseError::MalformedDocument)
    );
    assert!(alacritty_colors_to_base16_colors("tokyo.yaml", "[colors").unwrap().is_empty());
}

#[test]
fn a_model_keeps_one_value_to_a_slot() {
    let mut colors = Base16Colors::new();
    assert!(colors.is_empty());
    assert_eq!(colors.get("background"), None);
    colors.insert("background".to_string(), "000000".to_string());
    colors.insert("foreground".to_string(), "#GGGGGG".to_string());
    colors.insert("background".to_string(), "ffffff".to_string());
    assert_eq!(colors.len(), 2);
    assert_eq!(value(&colors, "background"), Some("ffffff"));
    assert_eq!(value(&colors, "foreground"), Some("#GGGGGG"));
    assert!(colors.contains_key("foreground"));
    assert!(!colors.contains_key("Foreground"));
}

#[test]
fn an_empty_text_is_an_empty_theme() {
    assert!(kitty_colors_to_base16_colors("").unwrap().is_empty());
    assert!(kitty_colors_to_base16_colors(" \n\t\n").unwrap().is_empty());
    assert!(read_keyed_lines("").is_empty());
    assert!(read_keyed_lines("\n\n").is_empty());
}

#[test]
fn directives_take_any_white_space_and_any_number_of_marks() {
    let colors = kitty_colors_to_base16_colors("\tcolor3\t\t##e0af68 # yellow\r\ncolor4 7aa2f7\r\n").unwrap();
    assert_eq!(value(&colors, "color3"), Some("e0af68"));
    assert_eq!(value(&colors, "color4"), Some("7aa2f7"));
    assert_eq!(colors.len(), 2);
}

#[test]
fn a_comment_among_directives_starts_its_line() {
    let colors = kitty_colors_to_base16_colors("#color1 #111111\ncolor2 #222222\n #color3 #333333\n").unwrap();
    assert!(!colors.contains_key("color1"));
    assert_eq!(value(&colors, "color2"), Some("222222"));
    assert_eq!(value(&colors, "color3"), Some("333333"));
}

#[test]
fn the_text_of_directives_is_trimmed_before_its_lines_are_read() {
    let colors = kitty_colors_to_base16_colors("\n   # color1 #111111\ncolor2 #222222").unwrap();
    assert!(!colors.contains_key("color1"));
    assert_eq!(colors.len(), 1);
}

#[test]
fn a_reading_stops_at_the_first_alias_that_fails() {
    let r = kitty_colors_to_base16_colors("color0 #000000\ncolor1 color7\ncolor2 color8\ncolor7 #777777\n");
    assert_eq!(
        r.err(),
        Some(ParseError::UnresolvedAlias { alias: "color1".to_string(), target: "color7".to_string() })
    );
}
