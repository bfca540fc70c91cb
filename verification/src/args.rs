//! The options of a conversion, and how they follow from what was asked for.

use crate::bridge::lowercase;
use crate::text::owned;
use vstd::prelude::*;
use vstd::string::StringExecFns;

verus! {

/// The name that a theme gets where none was asked for.
pub const DEFAULT_THEME_NAME: &'static str = "Theme ported with TTParser.";

/// The terminals that a theme is written for where none was asked for.
pub const DEFAULT_TERMINAL_OUTPUT: &'static str = "all";

/// The options of one conversion: which terminal's theme is read and from which
/// file, for which terminals it is written, into which folders and under which
/// name.
#[derive(Debug, Clone, PartialEq, Eq)]
pub struct Options {
    pub term_input: String,
    pub term_input_file: String,
    pub foot_output_folder: String,
    pub kitty_output_folder: String,
    pub alacritty_output_folder: String,
    pub terminal_output: String,
    pub theme_name: String,
}

/// What was asked for: the terminal whose theme is read and the file that holds
/// it, and, where they were given, the theme's name, the folders to write to and
/// the terminals to write for.
#[derive(Debug, Clone, PartialEq, Eq)]
pub struct Arguments {
    pub term_input: String,
    pub term_input_file: String,
    pub theme_name: Option<String>,
    pub foot_output_folder: Option<String>,
    pub alacritty_output_folder: Option<String>,
    pub kitty_output_folder: Option<String>,
    pub terminal_output: Option<String>,
}

/// `given` where there is one, else `fallback`.
pub open spec fn given_or(given: Option<String>, fallback: Seq<char>) -> Seq<char> {
    match given {
        Some(text) => text@,
        None => fallback,
    }
}

/// The folder of a terminal's configuration under the home directory.
pub open spec fn config_folder(home: Seq<char>, terminal: Seq<char>) -> Seq<char> {
    home + "/.config/"@ + terminal
}

/// `given` in lower case where there is one, else `fallback` in lower case.
fn lower_or(given: &Option<String>, fallback: &str) -> (r: String)
    ensures
        r@ == lowercase(given_or(*given, fallback@)),
{
    match given {
        Some(text) => text.as_str().to_lowercase(),
        None => fallback.to_lowercase(),
    }
}

/// The folder of a terminal's configuration under the home directory.
fn folder_under(home: &str, terminal: &str) -> (r: String)
    ensures
        r@ == config_folder(home@, terminal@),
{
    let mut r = owned(home);
    r.append("/.config/");
    r.append(terminal);
    r
}

impl Options {
    /// The options that follow from `arguments`, for a user whose home directory
    /// is `home`.
    ///
    /// Where no name was given the theme is called `DEFAULT_THEME_NAME`; where no
    /// terminal to write for was given it is `DEFAULT_TERMINAL_OUTPUT`; where no
    /// folder was given for a terminal it is `.config/` and the terminal's name,
    /// under `home`. Every option is then put in lower case.
    pub fn resolve(home: &str, arguments: &Arguments) -> (r: Options)
        ensures
            r.term_input@ == lowercase(arguments.term_input@),
            r.term_input_file@ == lowercase(arguments.term_input_file@),
            r.theme_name@ == lowercase(given_or(arguments.theme_name, DEFAULT_THEME_NAME@)),
            r.terminal_output@ == lowercase(
                given_or(arguments.terminal_output, DEFAULT_TERMINAL_OUTPUT@),
            ),
            r.foot_output_folder@ == lowercase(
                given_or(arguments.foot_output_folder, config_folder(home@, "foot"@)),
            ),
            r.alacritty_output_folder@ == lowercase(
                given_or(arguments.alacritty_output_folder, config_folder(home@, "alacritty"@)),
            ),
            r.kitty_output_folder@ == lowercase(
                given_or(arguments.kitty_output_folder, config_folder(home@, "kitty"@)),
            ),
    {
        Options {
            term_input: arguments.term_input.as_str().to_lowercase(),
            term_input_file: arguments.term_input_file.as_str().to_lowercase(),
            foot_output_folder: lower_or(
                &arguments.foot_output_folder,
                folder_under(home, "foot").as_str(),
            ),
            kitty_output_folder: lower_or(
                &arguments.kitty_output_folder,
                folder_under(home, "kitty").as_str(),
            ),
            alacritty_output_folder: lower_or(
                &arguments.alacritty_output_folder,
                folder_under(home, "alacritty").as_str(),
            ),
            terminal_output: lower_or(&arguments.terminal_output, DEFAULT_TERMINAL_OUTPUT),
            theme_name: lower_or(&arguments.theme_name, DEFAULT_THEME_NAME),
        }
    }
}

} // verus!
