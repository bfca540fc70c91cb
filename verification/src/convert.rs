//! A conversion as a whole: which reader a source calls for, which theme files a
//! choice of terminals calls for, and how the outcomes add up.

use crate::args::Options;
use crate::colors::Base16Colors;
use crate::text::{chars_of, is_word};
use crate::theme_creator::{
    create_alacritty_theme, create_foot_theme, create_kitty_theeme, rendered, RenderError,
    RenderFailure, Target, ThemeFile, ThemeFileView,
};
use crate::theme_parser::{
    alacritty_colors, alacritty_colors_to_base16_colors, directive_colors,
    kitty_colors_to_base16_colors, reading_of, ParseError, Reading,
};
use vstd::prelude::*;

verus! {

/// The model that a source describes: a Kitty theme where the terminal is
/// `kitty`, an Alacritty theme for every other name.
pub open spec fn source_colors(term_input: Seq<char>, path: Seq<char>, text: Seq<char>) -> Reading {
    if term_input == "kitty"@ {
        directive_colors(text)
    } else {
        alacritty_colors(path, text)
    }
}

/// Reads the theme of the terminal `term_input_name` from `text`, the text of
/// the file `term_input_file`.
///
/// The text is read as a Kitty theme where the terminal is `kitty`, and as an
/// Alacritty theme for every other name.
pub fn create_base16_colors(term_input_name: &String, term_input_file: &String, text: &str) -> (r:
    Result<Base16Colors, ParseError>)
    ensures
        reading_of(r) == source_colors(term_input_name@, term_input_file@, text@),
{
    if is_word(&chars_of(term_input_name.as_str()), "kitty") {
        kitty_colors_to_base16_colors(text)
    } else {
        alacritty_colors_to_base16_colors(term_input_file.as_str(), text)
    }
}

/// What becomes of one terminal in a conversion.
#[derive(Debug, Clone, PartialEq, Eq)]
pub enum Rendering {
    /// No theme was asked for.
    Skipped,
    /// The theme file to write.
    File(ThemeFile),
    /// The model does not hold what the theme file needs.
    Failed(RenderError),
}

/// The view of a `Rendering`.
pub enum RenderingView {
    Skipped,
    File(ThemeFileView),
    Failed(RenderFailure),
}

impl View for Rendering {
    type V = RenderingView;

    open spec fn view(&self) -> RenderingView {
        match self {
            Rendering::Skipped => RenderingView::Skipped,
            Rendering::File(file) => RenderingView::File(file@),
            Rendering::Failed(error) => RenderingView::Failed(error@),
        }
    }
}

/// What becomes of each terminal in a conversion.
#[derive(Debug, Clone, PartialEq, Eq)]
pub struct ThemePlan {
    pub foot: Rendering,
    pub alacritty: Rendering,
    pub kitty: Rendering,
}

/// Whether a theme is written for `target`: it was asked for by name, or `all`
/// was asked for and the source is not a theme of `target` itself.
pub open spec fn selected(target: Target, term_output: Seq<char>, term_input: Seq<char>) -> bool {
    term_output == target.name() || (term_output == "all"@ && term_input != target.name())
}

/// The folder that the options give for `target`.
pub open spec fn output_folder(target: Target, args: Options) -> Seq<char> {
    match target {
        Target::Foot => args.foot_output_folder@,
        Target::Alacritty => args.alacritty_output_folder@,
        Target::Kitty => args.kitty_output_folder@,
    }
}

/// What becomes of `target` once the source has been read.
pub open spec fn planned(
    target: Target,
    term_output: Seq<char>,
    args: Options,
    colors: Map<Seq<char>, Seq<char>>,
) -> RenderingView {
    if selected(target, term_output, args.term_input@) {
        match rendered(target, colors, output_folder(target, args), args.theme_name@) {
            Ok(file) => RenderingView::File(file),
            Err(failure) => RenderingView::Failed(failure),
        }
    } else {
        RenderingView::Skipped
    }
}

/// Whether a theme is written for the terminal called `name`.
fn is_selected(name: &str, term_output: &Vec<char>, term_input: &Vec<char>) -> (r: bool)
    ensures
        r == (term_output@ == name@ || (term_output@ == "all"@ && term_input@ != name@)),
{
    is_word(term_output, name) || (is_word(term_output, "all") && !is_word(term_input, name))
}

/// What a writer returned, as a `Rendering`.
fn rendering(written: Result<ThemeFile, RenderError>) -> (r: Rendering)
    ensures
        r@ == match written {
            Ok(file) => RenderingView::File(file@),
            Err(error) => RenderingView::Failed(error@),
        },
{
    match written {
        Ok(file) => Rendering::File(file),
        Err(error) => Rendering::Failed(error),
    }
}

/// Plans a conversion: reads the source and makes the theme files that were
/// asked for.
///
/// `text` is the text of the file `args.term_input_file`, read as
/// `create_base16_colors` reads it; a source that cannot be read ends the
/// conversion. `term_output` chooses the terminals: `foot`, `alacritty` or
/// `kitty` for one of them, `all` for each of them but the one the source comes
/// from, and none for any other word. A theme file that cannot be made for want
/// of a slot is marked as failed and leaves the others as they are.
pub fn create_theme(term_output: &String, args: &Options, text: &str) -> (r: Result<
    ThemePlan,
    ParseError,
>)
    ensures
        match source_colors(args.term_input@, args.term_input_file@, text@) {
            Err(failure) => r is Err && r->Err_0@ == failure,
            Ok(colors) => {
                &&& r is Ok
                &&& r->Ok_0.foot@ == planned(Target::Foot, term_output@, *args, colors)
                &&& r->Ok_0.alacritty@ == planned(Target::Alacritty, term_output@, *args, colors)
                &&& r->Ok_0.kitty@ == planned(Target::Kitty, term_output@, *args, colors)
            },
        },
{
    let base16_colors = match create_base16_colors(&args.term_input, &args.term_input_file, text) {
        Ok(colors) => colors,
        Err(error) => { return Err(error); },
    };
    let output = chars_of(term_output.as_str());
    let input = chars_of(args.term_input.as_str());
    let foot = if is_selected("foot", &output, &input) {
        rendering(create_foot_theme(&base16_colors, &args.foot_output_folder, &args.theme_name))
    } else {
        Rendering::Skipped
    };
    let alacritty = if is_selected("alacritty", &output, &input) {
        rendering(
            create_alacritty_theme(&base16_colors, &args.alacritty_output_folder, &args.theme_name),
        )
    } else {
        Rendering::Skipped
    };
    let kitty = if is_selected("kitty", &output, &input) {
        rendering(create_kitty_theeme(&base16_colors, &args.kitty_output_folder, &args.theme_name))
    } else {
        Rendering::Skipped
    };
    Ok(ThemePlan { foot, alacritty, kitty })
}

/// The outcome of a conversion, given the outcome for each terminal: the first
/// failure, in the order Foot, Alacritty, Kitty, or success where there is none.
pub fn conclude(
    foot: Result<(), String>,
    alacritty: Result<(), String>,
    kitty: Result<(), String>,
) -> (r: Result<(), String>)
    ensures
        r == (if foot is Err {
            foot
        } else if alacritty is Err {
            alacritty
        } else {
            kitty
        }),
{
    match foot {
        Err(error) => Err(error),
        Ok(()) => match alacritty {
            Err(error) => Err(error),
            Ok(()) => kitty,
        },
    }
}

} // verus!
