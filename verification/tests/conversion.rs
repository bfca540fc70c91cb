use ttparser::args::{Arguments, Options, DEFAULT_TERMINAL_OUTPUT, DEFAULT_THEME_NAME};
use ttparser::convert::{conclude, create_base16_colors, create_theme, Rendering};
use ttparser::theme_creator::RenderError;
use ttparser::theme_parser::ParseError;

fn kitty_theme() -> String {
    let mut text = String::from("## a theme\nbackground #1a1b26\nforeground #c0caf5\ncursor #c0caf5\ncursor_text_color background\n");
    for i in 0..16 {
        text.push_str(&format!("color{} #{:06x}\n", i, i * 17));
    }
    text
}

fn arguments(term_input: &str, file: &str) -> Arguments {
    Arguments {
        term_input: term_input.to_string(),
        term_input_file: file.to_string(),
        theme_name: None,
        foot_output_folder: None,
        alacritty_output_folder: None,
        kitty_output_folder: None,
        terminal_output: None,
    }
}

#[test]
fn options_fall_back_and_are_put_in_lower_case() {
    let options = Options::resolve("/home/Me", &arguments("Kitty", "/tmp/Theme.CONF"));
    assert_eq!(options.term_input, "kitty");
    assert_eq!(options.term_input_file, "/tmp/theme.conf");
    assert_eq!(options.theme_name, "theme ported with ttparser.");
    assert_eq!(options.terminal_output, "all");
    assert_eq!(options.foot_output_folder, "/home/me/.config/foot");
    assert_eq!(options.alacritty_output_folder, "/home/me/.config/alacritty");
    assert_eq!(options.kitty_output_folder, "/home/me/.config/kitty");
    assert_eq!(DEFAULT_THEME_NAME, "Theme ported with TTParser.");
    assert_eq!(DEFAULT_TERMINAL_OUTPUT, "all");
}

#[test]
fn options_that_were_given_are_kept_in_lower_case() {
    let mut given = arguments("alacritty", "a.yml");
    given.theme_name = Some("Tokyo NIGHT".to_string());
    given.foot_output_folder = Some("/Out/Foot".to_string());
    given.alacritty_output_folder = Some("/Out/Alacritty".to_string());
    given.kitty_output_folder = Some("/Out/Kitty".to_string());
    given.terminal_output = Some("FOOT".to_string());
    let options = Options::resolve("/home/me", &given);
    assert_eq!(options.theme_name, "tokyo night");
    assert_eq!(options.foot_output_folder, "/out/foot");
    assert_eq!(options.alacritty_output_folder, "/out/alacritty");
    assert_eq!(options.kitty_output_folder, "/out/kitty");
    assert_eq!(options.terminal_output, "foot");
}

#[test]
fn the_terminal_chooses_the_reader() {
    let kitty = "kitty".to_string();
    let alacritty = "alacritty".to_string();
    let other = "wezterm".to_string();
    let text = "background #000000\n";
    let colors = create_base16_colors(&kitty, &"theme.yml".to_string(), text).unwrap();
    assert_eq!(colors.get("background").map(|v| v.as_str()), Some("000000"));
    let colors = create_base16_colors(&alacritty, &"theme.yml".to_string(), "background: '#111111'\n").unwrap();
    assert_eq!(colors.get("background").map(|v| v.as_str()), Some("111111"));
    let colors = create_base16_colors(&other, &"theme.yml".to_string(), text).unwrap();
    assert!(colors.is_empty());
    assert_eq!(
        create_base16_colors(&other, &"theme.toml".to_string(), text).err(),
        Some(ParseError::MalformedDocument)
    );
}

fn file_of(rendering: &Rendering) -> Option<(&str, &str)> {
    match rendering {
        Rendering::File(file) => Some((file.path.as_str(), file.contents.as_str())),
        _ => None,
    }
}

#[test]
fn all_writes_for_every_terminal_but_the_source() {
    let options = Options::resolve("/home/me", &arguments("kitty", "theme.conf"));
    let plan = create_theme(&options.terminal_output, &options, &kitty_theme()).unwrap();
    assert_eq!(plan.kitty, Rendering::Skipped);
    let (path, contents) = file_of(&plan.foot).unwrap();
    assert_eq!(path, "/home/me/.config/foot/theme ported with ttparser.");
    assert!(contents.contains("background=1a1b26\n"));
    assert!(contents.contains("color=1a1b26 c0caf5\n"));
    assert!(contents.contains("bright7=0000ff # white"));
    let (path, contents) = file_of(&plan.alacritty).unwrap();
    assert_eq!(path, "/home/me/.config/alacritty/theme ported with ttparser..yml");
    assert!(contents.contains("    red: \"#000011\"\n"));
}

#[test]
fn one_terminal_can_be_asked_for_by_name() {
    let options = Options::resolve("/home/me", &arguments("kitty", "theme.conf"));
    let plan = create_theme(&"kitty".to_string(), &options, &kitty_theme()).unwrap();
    assert_eq!(plan.foot, Rendering::Skipped);
    assert_eq!(plan.alacritty, Rendering::Skipped);
    assert!(file_of(&plan.kitty).unwrap().0.ends_with("/kitty/theme ported with ttparser..conf"));
    let plan = create_theme(&"foot".to_string(), &options, &kitty_theme()).unwrap();
    assert!(file_of(&plan.foot).is_some());
    assert_eq!(plan.alacritty, Rendering::Skipped);
    assert_eq!(plan.kitty, Rendering::Skipped);
    let plan = create_theme(&"wezterm".to_string(), &options, &kitty_theme()).unwrap();
    assert_eq!(plan.foot, Rendering::Skipped);
    assert_eq!(plan.alacritty, Rendering::Skipped);
    assert_eq!(plan.kitty, Rendering::Skipped);
}

#[test]
fn a_theme_that_lacks_a_slot_fails_for_each_terminal_on_its_own() {
    let options = Options::resolve("/home/me", &arguments("alacritty", "theme.yml"));
    let plan = create_theme(&"all".to_string(), &options, "background: '#000000'\n").unwrap();
    let missing = Rendering::Failed(RenderError::MissingKey("foreground".to_string()));
    assert_eq!(plan.foot, missing);
    assert_eq!(plan.kitty, missing);
    assert_eq!(plan.alacritty, Rendering::Skipped);
}

#[test]
fn a_source_that_cannot_be_read_ends_the_conversion() {
    let options = Options::resolve("/home/me", &arguments("kitty", "theme.conf"));
    let r = create_theme(&"all".to_string(), &options, "color0 color1\n");
    assert_eq!(
        r.err(),
        Some(ParseError::UnresolvedAlias { alias: "color0".to_string(), target: "color1".to_string() })
    );
}

#[test]
fn the_first_failure_is_the_outcome() {
    let e = |s: &str| Err(s.to_string());
    assert_eq!(conclude(Ok(()), Ok(()), Ok(())), Ok(()));
    assert_eq!(conclude(e("foot"), e("alacritty"), e("kitty")), e("foot"));
    assert_eq!(conclude(Ok(()), e("alacritty"), e("kitty")), e("alacritty"));
    assert_eq!(conclude(Ok(()), Ok(()), e("kitty")), e("kitty"));
    assert_eq!(conclude(e("foot"), Ok(()), Ok(())), e("foot"));
}

#[test]
fn errors_say_what_went_wrong() {
    assert_eq!(
        RenderError::MissingKey("color3".to_string()).message(),
        "the theme has no value for color3"
    );
    assert_eq!(
        ParseError::UnresolvedAlias { alias: "color8".to_string(), target: "color0".to_string() }
            .message(),
        "color8 takes its value from color0, which no earlier line has set"
    );
    assert_eq!(ParseError::MalformedDocument.message(), "the theme is not a TOML document");
    assert_eq!(
        ParseError::MissingTable("normal".to_string()).message(),
        "the theme has no table normal"
    );
    assert_eq!(
        ParseError::NotText("red".to_string()).message(),
        "the value of red is not a string"
    );
}
