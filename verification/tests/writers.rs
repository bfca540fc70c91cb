use ttparser::colors::Base16Colors;
use ttparser::theme_creator::{
    alacritty_lines, create_alacritty_theme, create_foot_theme, create_kitty_theeme, fill,
    fill_lines, foot_lines, kitty_lines, render, Part, RenderError, Target, DEFAULT_CURSOR,
    DEFAULT_CURSOR_TEXT,
};
use ttparser::theme_parser::{kitty_colors_to_base16_colors, read_keyed_lines};

const PALETTE: [&str; 16] = [
    "15161e", "f7768e", "9ece6a", "e0af68", "7aa2f7", "bb9af7", "7dcfff", "a9b1d6", "414868",
    "ff7a93", "b9f27c", "ff9e64", "7da6ff", "bb9af8", "0db9d7", "c0caf5",
];

fn complete() -> Base16Colors {
    let mut colors = Base16Colors::new();
    colors.insert("background".to_string(), "1a1b26".to_string());
    colors.insert("foreground".to_string(), "c0caf5".to_string());
    for i in 0..16 {
        colors.insert(format!("color{}", i), PALETTE[i].to_string());
    }
    colors
}

fn with_cursor() -> Base16Colors {
    let mut colors = complete();
    colors.insert("cursor".to_string(), "abcdef".to_string());
    colors.insert("cursor_fg".to_string(), "123456".to_string());
    colors
}

fn folder() -> String {
    "/home/me/.config/term".to_string()
}

fn name() -> String {
    "Tokyo Night".to_string()
}

#[test]
fn a_foot_theme_is_written_in_full() {
    let file = create_foot_theme(&with_cursor(), &folder(), &name()).unwrap();
    assert_eq!(file.path, "/home/me/.config/term/tokyo night");
    let expected = "# -*- conf -*-
    # Tokyo Night
    [cursor]
    color=123456 abcdef

    [colors]
    background=1a1b26
    foreground=c0caf5

    # Normal/regular colors (color palette 0-7)
    regular0=15161e # black
    regular1=f7768e # red
    regular2=9ece6a # green
    regular3=e0af68 # yellow
    regular4=7aa2f7 # blue
    regular5=bb9af7 # magenta
    regular6=7dcfff # cyan
    regular7=a9b1d6 # white

    # Bright colors (color palette 8-15)
    bright0=414868 # black
    bright1=ff7a93 # red
    bright2=b9f27c # green
    bright3=ff9e64 # yellow
    bright4=7da6ff # blue
    bright5=bb9af8 # magenta
    bright6=0db9d7 # cyan
    bright7=c0caf5 # white";
    assert_eq!(file.contents, expected);
}

#[test]
fn an_alacritty_theme_is_written_in_full() {
    let file = create_alacritty_theme(&with_cursor(), &folder(), &name()).unwrap();
    assert_eq!(file.path, "/home/me/.config/term/tokyo night.yml");
    let expected = "# Tokyo Night

colors:
  primary:
    background: \"#1a1b26\"
    foreground: \"#c0caf5\"

  cursor: 
    text: \"#123456\"
    cursor: \"#abcdef\"

  normal:
    black: \"#15161e\"
    red: \"#f7768e\"
    green: \"#9ece6a\"
    yellow: \"#e0af68\"
    blue: \"#7aa2f7\"
    magenta: \"#bb9af7\"
    cyan: \"#7dcfff\"
    white: \"#a9b1d6\"

  bright:
    black: \"#414868\"
    red: \"#ff7a93\"
    green: \"#b9f27c\"
    yellow: \"#ff9e64\"
    blue: \"#7da6ff\"
    magenta: \"#bb9af8\"
    cyan: \"#0db9d7\"
    white: \"#c0caf5\"";
    assert_eq!(file.contents, expected);
}

#[test]
fn a_kitty_theme_is_written_in_full() {
    let file = create_kitty_theeme(&with_cursor(), &folder(), &name()).unwrap();
    assert_eq!(file.path, "/home/me/.config/term/tokyo night.conf");
    let expected = "## Tokyo Night

    background #1a1b26
    foreground #c0caf5
    cursor #abcdef
    cursor_text_color #123456
    color0 #15161e
    color1 #f7768e
    color2 #9ece6a
    color3 #e0af68
    color4 #7aa2f7
    color5 #bb9af7
    color6 #7dcfff
    color7 #a9b1d6
    color8 #414868
    color9 #ff7a93
    color10 #b9f27c
    color11 #ff9e64
    color12 #7da6ff
    color13 #bb9af8
    color14 #0db9d7
    color15 #c0caf5";
    assert_eq!(file.contents, expected);
}

#[test]
fn a_missing_cursor_is_written_as_its_fallback() {
    assert_eq!(DEFAULT_CURSOR, "FFFFFF");
    assert_eq!(DEFAULT_CURSOR_TEXT, "000000");
    let colors = complete();
    let foot = create_foot_theme(&colors, &folder(), &name()).unwrap();
    assert!(foot.contents.contains("[cursor]\n    color=000000 FFFFFF\n"));
    let alacritty = create_alacritty_theme(&colors, &folder(), &name()).unwrap();
    assert!(alacritty.contents.contains("text: \"#000000\"\n    cursor: \"#FFFFFF\"\n"));
    let kitty = create_kitty_theeme(&colors, &folder(), &name()).unwrap();
    assert!(kitty.contents.contains("cursor #FFFFFF\n    cursor_text_color #000000\n"));
}

#[test]
fn a_model_without_cursor_is_written_as_one_with_the_fallbacks() {
    let mut stored = complete();
    stored.insert("cursor".to_string(), "FFFFFF".to_string());
    stored.insert("cursor_fg".to_string(), "000000".to_string());
    for target in [Target::Foot, Target::Alacritty, Target::Kitty] {
        let lacking = render(target, &complete(), "out", "x").unwrap();
        let holding = render(target, &stored, "out", "x").unwrap();
        assert_eq!(lacking, holding);
    }
}

#[test]
fn one_missing_cursor_slot_leaves_the_other_as_it_is() {
    let mut colors = complete();
    colors.insert("cursor".to_string(), "abcdef".to_string());
    let kitty = create_kitty_theeme(&colors, &folder(), &name()).unwrap();
    assert!(kitty.contents.contains("cursor #abcdef\n    cursor_text_color #000000\n"));
}

#[test]
fn the_first_missing_slot_is_the_error() {
    let mut colors = Base16Colors::new();
    let missing = |key: &str| Some(RenderError::MissingKey(key.to_string()));
    assert_eq!(create_foot_theme(&colors, &folder(), &name()).err(), missing("background"));
    assert_eq!(create_alacritty_theme(&colors, &folder(), &name()).err(), missing("background"));
    assert_eq!(create_kitty_theeme(&colors, &folder(), &name()).err(), missing("background"));
    colors.insert("background".to_string(), "000000".to_string());
    assert_eq!(create_foot_theme(&colors, &folder(), &name()).err(), missing("foreground"));
    colors.insert("foreground".to_string(), "ffffff".to_string());
    colors.insert("color0".to_string(), "000000".to_string());
    colors.insert("color2".to_string(), "000000".to_string());
    assert_eq!(create_kitty_theeme(&colors, &folder(), &name()).err(), missing("color1"));
    for i in 0..15 {
        colors.insert(format!("color{}", i), "000000".to_string());
    }
    assert_eq!(create_alacritty_theme(&colors, &folder(), &name()).err(), missing("color15"));
}

#[test]
fn the_file_is_named_after_the_theme_in_lower_case() {
    let file = render(Target::Kitty, &complete(), "/OUT", "Gruvbox DARK Ünï").unwrap();
    assert_eq!(file.path, "/OUT/gruvbox dark ünï.conf");
    let file = render(Target::Foot, &complete(), "", "A").unwrap();
    assert_eq!(file.path, "/a");
}

#[test]
fn the_text_of_a_theme_is_trimmed() {
    let mut colors = complete();
    colors.insert("color15".to_string(), "c0caf5 \t".to_string());
    let kitty = create_kitty_theeme(&colors, &folder(), &name()).unwrap();
    assert!(kitty.contents.ends_with("color15 #c0caf5"));
    assert!(kitty.contents.starts_with("## Tokyo Night\n"));
}

#[test]
fn parts_are_written_one_after_the_other() {
    let colors = with_cursor();
    let parts = vec![
        Part::Fixed("<"),
        Part::Name,
        Part::Fixed("> "),
        Part::Slot("background"),
        Part::Fixed(" "),
        Part::Palette(11),
        Part::Fixed(" "),
        Part::SlotOr("cursor", "none"),
        Part::Fixed(" "),
        Part::SlotOr("selection", "none"),
    ];
    assert_eq!(fill(&parts, &colors, "n"), Ok("<n> 1a1b26 ff9e64 abcdef none".to_string()));
    assert_eq!(fill(&Vec::new(), &colors, "n"), Ok(String::new()));
    let parts = vec![Part::Slot("selection"), Part::Palette(16)];
    assert_eq!(fill(&parts, &colors, "n"), Err(RenderError::MissingKey("selection".to_string())));
    let parts = vec![Part::Palette(16), Part::Slot("selection")];
    assert_eq!(fill(&parts, &colors, "n"), Err(RenderError::MissingKey("color16".to_string())));
}

#[test]
fn lines_are_written_with_a_line_feed_between_them() {
    let colors = with_cursor();
    let lines = vec![
        vec![],
        vec![Part::Fixed("a="), Part::Palette(0)],
        vec![],
        vec![Part::Name],
        vec![],
    ];
    assert_eq!(fill_lines(&lines, &colors, "n"), Ok("\na=15161e\n\nn\n".to_string()));
    assert_eq!(fill_lines(&Vec::new(), &colors, "n"), Ok(String::new()));
    assert_eq!(fill_lines(&vec![vec![]], &colors, "n"), Ok(String::new()));
    assert_eq!(fill_lines(&vec![vec![Part::Name]], &colors, "n"), Ok("n".to_string()));
    let lines = vec![vec![Part::Name], vec![Part::Slot("b"), Part::Slot("a")], vec![Part::Slot("c")]];
    assert_eq!(fill_lines(&lines, &colors, "n"), Err(RenderError::MissingKey("b".to_string())));
}

#[test]
fn every_template_asks_for_the_same_slots() {
    for lines in [foot_lines(), alacritty_lines(), kitty_lines()] {
        let palette: Vec<usize> = lines
            .iter()
            .flatten()
            .filter_map(|part| match part {
                Part::Palette(index) => Some(*index),
                _ => None,
            })
            .collect();
        assert_eq!(palette, (0..16).collect::<Vec<usize>>());
        let fixed = lines.iter().flatten().all(|part| match part {
            Part::Fixed(text) => !text.contains('\n'),
            _ => true,
        });
        assert!(fixed);
    }
    assert_eq!(foot_lines().len(), 30);
    assert_eq!(alacritty_lines().len(), 32);
    assert_eq!(kitty_lines().len(), 24);
}

#[test]
fn an_alacritty_theme_reads_back_as_the_same_colors() {
    let model = with_cursor();
    let file = create_alacritty_theme(&model, &folder(), &name()).unwrap();
    let back = read_keyed_lines(&file.contents);
    for i in 0..16 {
        let key = format!("color{}", i);
        assert_eq!(back.get(&key), model.get(&key));
    }
    for key in ["background", "foreground", "cursor", "cursor_fg"] {
        assert_eq!(back.get(key), model.get(key));
    }
    assert_eq!(back.len(), 20);
}

#[test]
fn a_kitty_theme_reads_back_as_the_same_colors() {
    let model = with_cursor();
    let file = create_kitty_theeme(&model, &folder(), &name()).unwrap();
    let back = kitty_colors_to_base16_colors(&file.contents).unwrap();
    for i in 0..16 {
        let key = format!("color{}", i);
        assert_eq!(back.get(&key), model.get(&key));
    }
    for key in ["background", "foreground", "cursor", "cursor_fg"] {
        assert_eq!(back.get(key), model.get(key));
    }
    assert_eq!(back.len(), 20);
}
