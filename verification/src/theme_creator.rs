//! Writers: from the canonical color model to the text of a theme file in a
//! terminal's own syntax.

use crate::bridge::lowercase;
use crate::colors::Base16Colors;
use crate::text::{chars_of, owned, string_of, trim, trimmed};
use crate::theme_parser::{color_key, palette_key};
use vstd::prelude::*;
use vstd::string::StringExecFns;

verus! {

/// What is written for the cursor where the model has no `cursor`.
pub const DEFAULT_CURSOR: &'static str = "FFFFFF";

/// What is written for the text under the cursor where the model has no
/// `cursor_fg`.
pub const DEFAULT_CURSOR_TEXT: &'static str = "000000";

/// One piece of a theme file's text.
#[derive(Debug, Clone, Copy)]
pub enum Part {
    /// Text that every theme file of the kind holds.
    Fixed(&'static str),
    /// The theme's name.
    Name,
    /// The value of a slot that the model must have.
    Slot(&'static str),
    /// The value of the palette slot with the given index, which the model must
    /// have.
    Palette(usize),
    /// The value of a slot, or the fallback where the model does not have it.
    SlotOr(&'static str, &'static str),
}

/// Why a theme file could not be written.
#[derive(Debug, Clone, PartialEq, Eq)]
pub enum RenderError {
    /// The model lacks a slot that the file needs; its name is given.
    MissingKey(String),
}

/// The view of a `RenderError`.
pub enum RenderFailure {
    MissingKey(Seq<char>),
}

impl View for RenderError {
    type V = RenderFailure;

    open spec fn view(&self) -> RenderFailure {
        match self {
            RenderError::MissingKey(key) => RenderFailure::MissingKey(key@),
        }
    }
}

impl RenderError {
    /// The error in words.
    pub open spec fn words(self) -> Seq<char> {
        match self {
            RenderError::MissingKey(key) => "the theme has no value for "@ + key@,
        }
    }

    /// The error in words, for the user.
    pub fn message(&self) -> (r: String)
        ensures
            r@ == self.words(),
    {
        match self {
            RenderError::MissingKey(key) => {
                let mut r = owned("the theme has no value for ");
                r.append(key.as_str());
                r
            },
        }
    }
}

/// The value of a slot that the model must have.
pub open spec fn required(colors: Map<Seq<char>, Seq<char>>, key: Seq<char>) -> Result<
    Seq<char>,
    RenderFailure,
> {
    if colors.contains_key(key) {
        Ok(colors[key])
    } else {
        Err(RenderFailure::MissingKey(key))
    }
}

/// The text that a part stands for.
pub open spec fn part_text(
    part: Part,
    colors: Map<Seq<char>, Seq<char>>,
    name: Seq<char>,
) -> Result<Seq<char>, RenderFailure> {
    match part {
        Part::Fixed(text) => Ok(text@),
        Part::Name => Ok(name),
        Part::Slot(key) => required(colors, key@),
        Part::Palette(index) => required(colors, color_key(index as nat)),
        Part::SlotOr(key, fallback) => if colors.contains_key(key@) {
            Ok(colors[key@])
        } else {
            Ok(fallback@)
        },
    }
}

/// The texts of `parts`, one after the other, or the first slot that the model
/// lacks.
pub open spec fn filled(
    parts: Seq<Part>,
    colors: Map<Seq<char>, Seq<char>>,
    name: Seq<char>,
) -> Result<Seq<char>, RenderFailure>
    decreases parts.len(),
{
    if parts.len() == 0 {
        Ok(Seq::empty())
    } else {
        match filled(parts.drop_last(), colors, name) {
            Err(failure) => Err(failure),
            Ok(before) => match part_text(parts.last(), colors, name) {
                Err(failure) => Err(failure),
                Ok(text) => Ok(before + text),
            },
        }
    }
}

/// Once the parts filled so far have failed, the rest changes nothing.
pub proof fn lemma_filled_fails(
    parts: Seq<Part>,
    colors: Map<Seq<char>, Seq<char>>,
    name: Seq<char>,
    k: int,
)
    requires
        0 <= k <= parts.len(),
        filled(parts.take(k), colors, name) is Err,
    ensures
        filled(parts, colors, name) == filled(parts.take(k), colors, name),
    decreases parts.len() - k,
{
    if k == parts.len() {
        assert(parts.take(k) =~= parts);
    } else {
        assert(parts.drop_last().take(k) =~= parts.take(k));
        lemma_filled_fails(parts.drop_last(), colors, name, k);
    }
}

/// The value that the model holds under `key`.
fn value_of(colors: &Base16Colors, key: &str) -> (r: Result<String, RenderError>)
    ensures
        match required(colors@, key@) {
            Ok(text) => r is Ok && r->Ok_0@ == text,
            Err(failure) => r is Err && r->Err_0@ == failure,
        },
{
    match colors.get(key) {
        Some(value) => Ok(value.clone()),
        None => Err(RenderError::MissingKey(owned(key))),
    }
}

/// The text that `part` stands for.
fn text_of(part: Part, colors: &Base16Colors, name: &str) -> (r: Result<String, RenderError>)
    ensures
        match part_text(part, colors@, name@) {
            Ok(text) => r is Ok && r->Ok_0@ == text,
            Err(failure) => r is Err && r->Err_0@ == failure,
        },
{
    match part {
        Part::Fixed(text) => Ok(owned(text)),
        Part::Name => Ok(owned(name)),
        Part::Slot(key) => value_of(colors, key),
        Part::Palette(index) => value_of(colors, string_of(&palette_key(index)).as_str()),
        Part::SlotOr(key, fallback) => match colors.get(key) {
            Some(value) => Ok(value.clone()),
            None => Ok(owned(fallback)),
        },
    }
}

/// Writes `parts` out, one after the other.
pub fn fill(parts: &Vec<Part>, colors: &Base16Colors, name: &str) -> (r: Result<
    String,
    RenderError,
>)
    ensures
        match filled(parts@, colors@, name@) {
            Ok(text) => r is Ok && r->Ok_0@ == text,
            Err(failure) => r is Err && r->Err_0@ == failure,
        },
{
    let mut out = String::new();
    let mut i: usize = 0;
    assert(parts@.take(0) =~= Seq::<Part>::empty());
    while i < parts.len()
        invariant
            i <= parts.len(),
            filled(parts@.take(i as int), colors@, name@) == Ok::<Seq<char>, RenderFailure>(out@),
        decreases parts.len() - i,
    {
        proof {
            let done = parts@.take(i + 1);
            assert(done.drop_last() =~= parts@.take(i as int));
            assert(done.last() == parts@[i as int]);
        }
        match text_of(parts[i], colors, name) {
            Ok(text) => {
                out.append(text.as_str());
            },
            Err(error) => {
                proof {
                    lemma_filled_fails(parts@, colors@, name@, i + 1);
                }
                return Err(error);
            },
        }
        i += 1;
    }
    assert(parts@.take(i as int) =~= parts@);
    Ok(out)
}

/// The lines of a theme file, as sequences of parts.
pub open spec fn part_lines(lines: Seq<Vec<Part>>) -> Seq<Seq<Part>> {
    lines.map_values(|line: Vec<Part>| line@)
}

/// The text of a theme file: its lines written out, with a line feed between
/// one line and the next, or the first slot that the model lacks.
pub open spec fn filled_lines(
    lines: Seq<Seq<Part>>,
    colors: Map<Seq<char>, Seq<char>>,
    name: Seq<char>,
) -> Result<Seq<char>, RenderFailure>
    decreases lines.len(),
{
    if lines.len() == 0 {
        Ok(Seq::empty())
    } else {
        match filled_lines(lines.drop_last(), colors, name) {
            Err(failure) => Err(failure),
            Ok(before) => match filled(lines.last(), colors, name) {
                Err(failure) => Err(failure),
                Ok(line) => if lines.len() == 1 {
                    Ok(line)
                } else {
                    Ok(before + seq!['\n'] + line)
                },
            },
        }
    }
}

/// Once the lines filled so far have failed, the rest changes nothing.
pub proof fn lemma_filled_lines_fails(
    lines: Seq<Seq<Part>>,
    colors: Map<Seq<char>, Seq<char>>,
    name: Seq<char>,
    k: int,
)
    requires
        0 <= k <= lines.len(),
        filled_lines(lines.take(k), colors, name) is Err,
    ensures
        filled_lines(lines, colors, name) == filled_lines(lines.take(k), colors, name),
    decreases lines.len() - k,
{
    if k == lines.len() {
        assert(lines.take(k) =~= lines);
    } else {
        assert(lines.drop_last().take(k) =~= lines.take(k));
        lemma_filled_lines_fails(lines.drop_last(), colors, name, k);
    }
}

/// Writes `lines` out, with a line feed between one line and the next.
pub fn fill_lines(lines: &Vec<Vec<Part>>, colors: &Base16Colors, name: &str) -> (r: Result<
    String,
    RenderError,
>)
    ensures
        match filled_lines(part_lines(lines@), colors@, name@) {
            Ok(text) => r is Ok && r->Ok_0@ == text,
            Err(failure) => r is Err && r->Err_0@ == failure,
        },
{
    let mut out = String::new();
    let mut i: usize = 0;
    let ghost all = part_lines(lines@);
    assert(all.take(0) =~= Seq::<Seq<Part>>::empty());
    while i < lines.len()
        invariant
            i <= lines.len(),
            all == part_lines(lines@),
            filled_lines(all.take(i as int), colors@, name@) == Ok::<Seq<char>, RenderFailure>(
                out@,
            ),
        decreases lines.len() - i,
    {
        proof {
            let done = all.take(i + 1);
            assert(done.drop_last() =~= all.take(i as int));
            assert(done.last() == lines@[i as int]@);
        }
        match fill(&lines[i], colors, name) {
            Ok(line) => {
                if i > 0 {
                    let ghost before = out@;
                    out.push('\n');
                    out.append(line.as_str());
                    assert(out@ =~= before + seq!['\n'] + line@);
                } else {
                    out = line;
                }
            },
            Err(error) => {
                proof {
                    lemma_filled_lines_fails(all, colors@, name@, i + 1);
                }
                return Err(error);
            },
        }
        i += 1;
    }
    assert(all.take(i as int) =~= all);
    Ok(out)
}

/// The lines of a Foot theme, line by line: an ini file with a `[cursor]` and a `[colors]`
/// section.
pub open spec fn foot_template() -> Seq<Seq<Part>> {
    seq![
        seq![],
        seq![Part::Fixed("    # -*- conf -*-")],
        seq![
            Part::Fixed("    # "),
            Part::Name,
        ],
        seq![Part::Fixed("    [cursor]")],
        seq![
            Part::Fixed("    color="),
            Part::SlotOr("cursor_fg", DEFAULT_CURSOR_TEXT),
            Part::Fixed(" "),
            Part::SlotOr("cursor", DEFAULT_CURSOR),
        ],
        seq![],
        seq![Part::Fixed("    [colors]")],
        seq![
            Part::Fixed("    background="),
            Part::Slot("background"),
        ],
        seq![
            Part::Fixed("    foreground="),
            Part::Slot("foreground"),
        ],
        seq![],
        seq![Part::Fixed("    # Normal/regular colors (color palette 0-7)")],
        seq![
            Part::Fixed("    regular0="),
            Part::Palette(0),
            Part::Fixed(" # black"),
        ],
        seq![
            Part::Fixed("    regular1="),
            Part::Palette(1),
            Part::Fixed(" # red"),
        ],
        seq![
            Part::Fixed("    regular2="),
            Part::Palette(2),
            Part::Fixed(" # green"),
        ],
        seq![
            Part::Fixed("    regular3="),
            Part::Palette(3),
            Part::Fixed(" # yellow"),
        ],
        seq![
            Part::Fixed("    regular4="),
            Part::Palette(4),
            Part::Fixed(" # blue"),
        ],
        seq![
            Part::Fixed("    regular5="),
            Part::Palette(5),
            Part::Fixed(" # magenta"),
        ],
        seq![
            Part::Fixed("    regular6="),
            Part::Palette(6),
            Part::Fixed(" # cyan"),
        ],
        seq![
            Part::Fixed("    regular7="),
            Part::Palette(7),
            Part::Fixed(" # white"),
        ],
        seq![],
        seq![Part::Fixed("    # Bright colors (color palette 8-15)")],
        seq![
            Part::Fixed("    bright0="),
            Part::Palette(8),
            Part::Fixed(" # black"),
        ],
        seq![
            Part::Fixed("    bright1="),
            Part::Palette(9),
            Part::Fixed(" # red"),
        ],
        seq![
            Part::Fixed("    bright2="),
            Part::Palette(10),
            Part::Fixed(" # green"),
        ],
        seq![
            Part::Fixed("    bright3="),
            Part::Palette(11),
            Part::Fixed(" # yellow"),
        ],
        seq![
            Part::Fixed("    bright4="),
            Part::Palette(12),
            Part::Fixed(" # blue"),
        ],
        seq![
            Part::Fixed("    bright5="),
            Part::Palette(13),
            Part::Fixed(" # magenta"),
        ],
        seq![
            Part::Fixed("    bright6="),
            Part::Palette(14),
            Part::Fixed(" # cyan"),
        ],
        seq![
            Part::Fixed("    bright7="),
            Part::Palette(15),
            Part::Fixed(" # white"),
        ],
        seq![Part::Fixed("    ")],
    ]
}

/// The lines of a Foot theme.
pub fn foot_lines() -> (r: Vec<Vec<Part>>)
    ensures
        part_lines(r@) == foot_template(),
{
    let r = vec![
        vec![],
        vec![Part::Fixed("    # -*- conf -*-")],
        vec![
            Part::Fixed("    # "),
            Part::Name,
        ],
        vec![Part::Fixed("    [cursor]")],
        vec![
            Part::Fixed("    color="),
            Part::SlotOr("cursor_fg", DEFAULT_CURSOR_TEXT),
            Part::Fixed(" "),
            Part::SlotOr("cursor", DEFAULT_CURSOR),
        ],
        vec![],
        vec![Part::Fixed("    [colors]")],
        vec![
            Part::Fixed("    background="),
            Part::Slot("background"),
        ],
        vec![
            Part::Fixed("    foreground="),
            Part::Slot("foreground"),
        ],
        vec![],
        vec![Part::Fixed("    # Normal/regular colors (color palette 0-7)")],
        vec![
            Part::Fixed("    regular0="),
            Part::Palette(0),
            Part::Fixed(" # black"),
        ],
        vec![
            Part::Fixed("    regular1="),
            Part::Palette(1),
            Part::Fixed(" # red"),
        ],
        vec![
            Part::Fixed("    regular2="),
            Part::Palette(2),
            Part::Fixed(" # green"),
        ],
        vec![
            Part::Fixed("    regular3="),
            Part::Palette(3),
            Part::Fixed(" # yellow"),
        ],
        vec![
            Part::Fixed("    regular4="),
            Part::Palette(4),
            Part::Fixed(" # blue"),
        ],
        vec![
            Part::Fixed("    regular5="),
            Part::Palette(5),
            Part::Fixed(" # magenta"),
        ],
        vec![
            Part::Fixed("    regular6="),
            Part::Palette(6),
            Part::Fixed(" # cyan"),
        ],
        vec![
            Part::Fixed("    regular7="),
            Part::Palette(7),
            Part::Fixed(" # white"),
        ],
        vec![],
        vec![Part::Fixed("    # Bright colors (color palette 8-15)")],
        vec![
            Part::Fixed("    bright0="),
            Part::Palette(8),
            Part::Fixed(" # black"),
        ],
        vec![
            Part::Fixed("    bright1="),
            Part::Palette(9),
            Part::Fixed(" # red"),
        ],
        vec![
            Part::Fixed("    bright2="),
            Part::Palette(10),
            Part::Fixed(" # green"),
        ],
        vec![
            Part::Fixed("    bright3="),
            Part::Palette(11),
            Part::Fixed(" # yellow"),
        ],
        vec![
            Part::Fixed("    bright4="),
            Part::Palette(12),
            Part::Fixed(" # blue"),
        ],
        vec![
            Part::Fixed("    bright5="),
            Part::Palette(13),
            Part::Fixed(" # magenta"),
        ],
        vec![
            Part::Fixed("    bright6="),
            Part::Palette(14),
            Part::Fixed(" # cyan"),
        ],
        vec![
            Part::Fixed("    bright7="),
            Part::Palette(15),
            Part::Fixed(" # white"),
        ],
        vec![Part::Fixed("    ")],
    ];
    assert(part_lines(r@) =~~= foot_template());
    r
}

/// The lines of an Alacritty theme, line by line: `key: value` lines under `colors:`,
/// with the values in double quotes.
pub open spec fn alacritty_template() -> Seq<Seq<Part>> {
    seq![
        seq![],
        seq![
            Part::Fixed("        # "),
            Part::Name,
        ],
        seq![],
        seq![Part::Fixed("colors:")],
        seq![Part::Fixed("  primary:")],
        seq![
            Part::Fixed("    background: \"#"),
            Part::Slot("background"),
            Part::Fixed("\""),
        ],
        seq![
            Part::Fixed("    foreground: \"#"),
            Part::Slot("foreground"),
            Part::Fixed("\""),
        ],
        seq![],
        seq![Part::Fixed("  cursor: ")],
        seq![
            Part::Fixed("    text: \"#"),
            Part::SlotOr("cursor_fg", DEFAULT_CURSOR_TEXT),
            Part::Fixed("\""),
        ],
        seq![
            Part::Fixed("    cursor: \"#"),
            Part::SlotOr("cursor", DEFAULT_CURSOR),
            Part::Fixed("\""),
        ],
        seq![],
        seq![Part::Fixed("  normal:")],
        seq![
            Part::Fixed("    black: \"#"),
            Part::Palette(0),
            Part::Fixed("\""),
        ],
        seq![
            Part::Fixed("    red: \"#"),
            Part::Palette(1),
            Part::Fixed("\""),
        ],
        seq![
            Part::Fixed("    green: \"#"),
            Part::Palette(2),
            Part::Fixed("\""),
        ],
        seq![
            Part::Fixed("    yellow: \"#"),
            Part::Palette(3),
            Part::Fixed("\""),
        ],
        seq![
            Part::Fixed("    blue: \"#"),
            Part::Palette(4),
            Part::Fixed("\""),
        ],
        seq![
            Part::Fixed("    magenta: \"#"),
            Part::Palette(5),
            Part::Fixed("\""),
        ],
        seq![
            Part::Fixed("    cyan: \"#"),
            Part::Palette(6),
            Part::Fixed("\""),
        ],
        seq![
            Part::Fixed("    white: \"#"),
            Part::Palette(7),
            Part::Fixed("\""),
        ],
        seq![],
        seq![Part::Fixed("  bright:")],
        seq![
            Part::Fixed("    black: \"#"),
            Part::Palette(8),
            Part::Fixed("\""),
        ],
        seq![
            Part::Fixed("    red: \"#"),
            Part::Palette(9),
            Part::Fixed("\""),
        ],
        seq![
            Part::Fixed("    green: \"#"),
            Part::Palette(10),
            Part::Fixed("\""),
        ],
        seq![
            Part::Fixed("    yellow: \"#"),
            Part::Palette(11),
            Part::Fixed("\""),
        ],
        seq![
            Part::Fixed("    blue: \"#"),
            Part::Palette(12),
            Part::Fixed("\""),
        ],
        seq![
            Part::Fixed("    magenta: \"#"),
            Part::Palette(13),
            Part::Fixed("\""),
        ],
        seq![
            Part::Fixed("    cyan: \"#"),
            Part::Palette(14),
            Part::Fixed("\""),
        ],
        seq![
            Part::Fixed("    white: \"#"),
            Part::Palette(15),
            Part::Fixed("\""),
        ],
        seq![],
    ]
}

/// The lines of an Alacritty theme.
pub fn alacritty_lines() -> (r: Vec<Vec<Part>>)
    ensures
        part_lines(r@) == alacritty_template(),
{
    let r = vec![
        vec![],
        vec![
            Part::Fixed("        # "),
            Part::Name,
        ],
        vec![],
        vec![Part::Fixed("colors:")],
        vec![Part::Fixed("  primary:")],
        vec![
            Part::Fixed("    background: \"#"),
            Part::Slot("background"),
            Part::Fixed("\""),
        ],
        vec![
            Part::Fixed("    foreground: \"#"),
            Part::Slot("foreground"),
            Part::Fixed("\""),
        ],
        vec![],
        vec![Part::Fixed("  cursor: ")],
        vec![
            Part::Fixed("    text: \"#"),
            Part::SlotOr("cursor_fg", DEFAULT_CURSOR_TEXT),
            Part::Fixed("\""),
        ],
        vec![
            Part::Fixed("    cursor: \"#"),
            Part::SlotOr("cursor", DEFAULT_CURSOR),
            Part::Fixed("\""),
        ],
        vec![],
        vec![Part::Fixed("  normal:")],
        vec![
            Part::Fixed("    black: \"#"),
            Part::Palette(0),
            Part::Fixed("\""),
        ],
        vec![
            Part::Fixed("    red: \"#"),
            Part::Palette(1),
            Part::Fixed("\""),
        ],
        vec![
            Part::Fixed("    green: \"#"),
            Part::Palette(2),
            Part::Fixed("\""),
        ],
        vec![
            Part::Fixed("    yellow: \"#"),
            Part::Palette(3),
            Part::Fixed("\""),
        ],
        vec![
            Part::Fixed("    blue: \"#"),
            Part::Palette(4),
            Part::Fixed("\""),
        ],
        vec![
            Part::Fixed("    magenta: \"#"),
            Part::Palette(5),
            Part::Fixed("\""),
        ],
        vec![
            Part::Fixed("    cyan: \"#"),
            Part::Palette(6),
            Part::Fixed("\""),
        ],
        vec![
            Part::Fixed("    white: \"#"),
            Part::Palette(7),
            Part::Fixed("\""),
        ],
        vec![],
        vec![Part::Fixed("  bright:")],
        vec![
            Part::Fixed("    black: \"#"),
            Part::Palette(8),
            Part::Fixed("\""),
        ],
        vec![
            Part::Fixed("    red: \"#"),
            Part::Palette(9),
            Part::Fixed("\""),
        ],
        vec![
            Part::Fixed("    green: \"#"),
            Part::Palette(10),
            Part::Fixed("\""),
        ],
        vec![
            Part::Fixed("    yellow: \"#"),
            Part::Palette(11),
            Part::Fixed("\""),
        ],
        vec![
            Part::Fixed("    blue: \"#"),
            Part::Palette(12),
            Part::Fixed("\""),
        ],
        vec![
            Part::Fixed("    magenta: \"#"),
            Part::Palette(13),
            Part::Fixed("\""),
        ],
        vec![
            Part::Fixed("    cyan: \"#"),
            Part::Palette(14),
            Part::Fixed("\""),
        ],
        vec![
            Part::Fixed("    white: \"#"),
            Part::Palette(15),
            Part::Fixed("\""),
        ],
        vec![],
    ];
    assert(part_lines(r@) =~~= alacritty_template());
    r
}

/// The lines of a Kitty theme, line by line: one directive to a line.
pub open spec fn kitty_template() -> Seq<Seq<Part>> {
    seq![
        seq![],
        seq![
            Part::Fixed("## "),
            Part::Name,
        ],
        seq![],
        seq![
            Part::Fixed("    background #"),
            Part::Slot("background"),
        ],
        seq![
            Part::Fixed("    foreground #"),
            Part::Slot("foreground"),
        ],
        seq![
            Part::Fixed("    cursor #"),
            Part::SlotOr("cursor", DEFAULT_CURSOR),
        ],
        seq![
            Part::Fixed("    cursor_text_color #"),
            Part::SlotOr("cursor_fg", DEFAULT_CURSOR_TEXT),
        ],
        seq![
            Part::Fixed("    color0 #"),
            Part::Palette(0),
        ],
        seq![
            Part::Fixed("    color1 #"),
            Part::Palette(1),
        ],
        seq![
            Part::Fixed("    color2 #"),
            Part::Palette(2),
        ],
        seq![
            Part::Fixed("    color3 #"),
            Part::Palette(3),
        ],
        seq![
            Part::Fixed("    color4 #"),
            Part::Palette(4),
        ],
        seq![
            Part::Fixed("    color5 #"),
            Part::Palette(5),
        ],
        seq![
            Part::Fixed("    color6 #"),
            Part::Palette(6),
        ],
        seq![
            Part::Fixed("    color7 #"),
            Part::Palette(7),
        ],
        seq![
            Part::Fixed("    color8 #"),
            Part::Palette(8),
        ],
        seq![
            Part::Fixed("    color9 #"),
            Part::Palette(9),
        ],
        seq![
            Part::Fixed("    color10 #"),
            Part::Palette(10),
        ],
        seq![
            Part::Fixed("    color11 #"),
            Part::Palette(11),
        ],
        seq![
            Part::Fixed("    color12 #"),
            Part::Palette(12),
        ],
        seq![
            Part::Fixed("    color13 #"),
            Part::Palette(13),
        ],
        seq![
            Part::Fixed("    color14 #"),
            Part::Palette(14),
        ],
        seq![
            Part::Fixed("    color15 #"),
            Part::Palette(15),
        ],
        seq![],
    ]
}

/// The lines of a Kitty theme.
pub fn kitty_lines() -> (r: Vec<Vec<Part>>)
    ensures
        part_lines(r@) == kitty_template(),
{
    let r = vec![
        vec![],
        vec![
            Part::Fixed("## "),
            Part::Name,
        ],
        vec![],
        vec![
            Part::Fixed("    background #"),
            Part::Slot("background"),
        ],
        vec![
            Part::Fixed("    foreground #"),
            Part::Slot("foreground"),
        ],
        vec![
            Part::Fixed("    cursor #"),
            Part::SlotOr("cursor", DEFAULT_CURSOR),
        ],
        vec![
            Part::Fixed("    cursor_text_color #"),
            Part::SlotOr("cursor_fg", DEFAULT_CURSOR_TEXT),
        ],
        vec![
            Part::Fixed("    color0 #"),
            Part::Palette(0),
        ],
        vec![
            Part::Fixed("    color1 #"),
            Part::Palette(1),
        ],
        vec![
            Part::Fixed("    color2 #"),
            Part::Palette(2),
        ],
        vec![
            Part::Fixed("    color3 #"),
            Part::Palette(3),
        ],
        vec![
            Part::Fixed("    color4 #"),
            Part::Palette(4),
        ],
        vec![
            Part::Fixed("    color5 #"),
            Part::Palette(5),
        ],
        vec![
            Part::Fixed("    color6 #"),
            Part::Palette(6),
        ],
        vec![
            Part::Fixed("    color7 #"),
            Part::Palette(7),
        ],
        vec![
            Part::Fixed("    color8 #"),
            Part::Palette(8),
        ],
        vec![
            Part::Fixed("    color9 #"),
            Part::Palette(9),
        ],
        vec![
            Part::Fixed("    color10 #"),
            Part::Palette(10),
        ],
        vec![
            Part::Fixed("    color11 #"),
            Part::Palette(11),
        ],
        vec![
            Part::Fixed("    color12 #"),
            Part::Palette(12),
        ],
        vec![
            Part::Fixed("    color13 #"),
            Part::Palette(13),
        ],
        vec![
            Part::Fixed("    color14 #"),
            Part::Palette(14),
        ],
        vec![
            Part::Fixed("    color15 #"),
            Part::Palette(15),
        ],
        vec![],
    ];
    assert(part_lines(r@) =~~= kitty_template());
    r
}

/// The terminals for which a theme file can be written.
#[derive(Debug, Clone, Copy, PartialEq, Eq, Structural)]
pub enum Target {
    Foot,
    Alacritty,
    Kitty,
}

impl Target {
    /// The name by which the terminal is chosen.
    pub open spec fn name(self) -> Seq<char> {
        match self {
            Target::Foot => "foot"@,
            Target::Alacritty => "alacritty"@,
            Target::Kitty => "kitty"@,
        }
    }

    /// The lines of the terminal's theme file.
    pub open spec fn template(self) -> Seq<Seq<Part>> {
        match self {
            Target::Foot => foot_template(),
            Target::Alacritty => alacritty_template(),
            Target::Kitty => kitty_template(),
        }
    }

    /// What follows the theme's name in the name of the file.
    pub open spec fn suffix(self) -> Seq<char> {
        match self {
            Target::Foot => ""@,
            Target::Alacritty => ".yml"@,
            Target::Kitty => ".conf"@,
        }
    }
}

/// A theme file, ready to be written: where it goes and what it holds.
#[derive(Debug, Clone, PartialEq, Eq)]
pub struct ThemeFile {
    pub path: String,
    pub contents: String,
}

/// The view of a `ThemeFile`.
pub struct ThemeFileView {
    pub path: Seq<char>,
    pub contents: Seq<char>,
}

impl View for ThemeFile {
    type V = ThemeFileView;

    open spec fn view(&self) -> ThemeFileView {
        ThemeFileView { path: self.path@, contents: self.contents@ }
    }
}

/// What a writer owes: a theme file, or the reason why there is none.
pub type Written = Result<ThemeFileView, RenderFailure>;

/// What a writer returned, seen as a `Written`.
pub open spec fn written_of(r: Result<ThemeFile, RenderError>) -> Written {
    match r {
        Ok(file) => Ok(file@),
        Err(error) => Err(error@),
    }
}

/// Where the theme file goes: into `folder`, under the theme's name in lower
/// case, followed by the terminal's suffix.
pub open spec fn theme_path(target: Target, folder: Seq<char>, theme_name: Seq<char>) -> Seq<char> {
    folder + "/"@ + lowercase(theme_name) + target.suffix()
}

/// The theme file for `target`: the lines of its template written out and
/// trimmed as a whole, or the first slot that the template needs and the model
/// lacks.
pub open spec fn rendered(
    target: Target,
    colors: Map<Seq<char>, Seq<char>>,
    folder: Seq<char>,
    theme_name: Seq<char>,
) -> Written {
    match filled_lines(target.template(), colors, theme_name) {
        Ok(text) => Ok(
            ThemeFileView {
                path: theme_path(target, folder, theme_name),
                contents: trimmed(text),
            },
        ),
        Err(failure) => Err(failure),
    }
}

/// Makes the theme file for `target`.
pub fn render(target: Target, colors: &Base16Colors, folder: &str, theme_name: &str) -> (r: Result<
    ThemeFile,
    RenderError,
>)
    ensures
        written_of(r) == rendered(target, colors@, folder@, theme_name@),
{
    let lines = match target {
        Target::Foot => foot_lines(),
        Target::Alacritty => alacritty_lines(),
        Target::Kitty => kitty_lines(),
    };
    let text = match fill_lines(&lines, colors, theme_name) {
        Ok(text) => text,
        Err(error) => { return Err(error); },
    };
    let contents = string_of(&trim(&chars_of(text.as_str())));
    let mut path = owned(folder);
    path.append("/");
    path.append(theme_name.to_lowercase().as_str());
    match target {
        Target::Foot => path.append(""),
        Target::Alacritty => path.append(".yml"),
        Target::Kitty => path.append(".conf"),
    }
    Ok(ThemeFile { path, contents })
}

/// Makes the Foot theme of `base16_colors`: a file named after the theme, in
/// lower case, in the folder `foot_path`.
///
/// The model must hold `background`, `foreground` and `color0` to `color15`:
/// the first of them that is missing, in the order of the file, is the error.
/// Where `cursor` or `cursor_fg` is missing, `FFFFFF` and `000000` are written
/// in its place.
pub fn create_foot_theme(
    base16_colors: &Base16Colors,
    foot_path: &String,
    theme_name: &String,
) -> (r: Result<ThemeFile, RenderError>)
    ensures
        written_of(r) == rendered(Target::Foot, base16_colors@, foot_path@, theme_name@),
{
    render(Target::Foot, base16_colors, foot_path.as_str(), theme_name.as_str())
}

/// Makes the Alacritty theme of `base16_colors`: a file named after the theme,
/// in lower case and with `.yml` behind it, in the folder `alacritty_path`.
///
/// The model must hold `background`, `foreground` and `color0` to `color15`:
/// the first of them that is missing, in the order of the file, is the error.
/// Where `cursor` or `cursor_fg` is missing, `FFFFFF` and `000000` are written
/// in its place.
pub fn create_alacritty_theme(
    base16_colors: &Base16Colors,
    alacritty_path: &String,
    theme_name: &String,
) -> (r: Result<ThemeFile, RenderError>)
    ensures
        written_of(r) == rendered(
            Target::Alacritty,
            base16_colors@,
            alacritty_path@,
            theme_name@,
        ),
{
    render(Target::Alacritty, base16_colors, alacritty_path.as_str(), theme_name.as_str())
}

/// Makes the Kitty theme of `base16_colors`: a file named after the theme, in
/// lower case and with `.conf` behind it, in the folder `kitty_path`.
///
/// The model must hold `background`, `foreground` and `color0` to `color15`:
/// the first of them that is missing, in the order of the file, is the error.
/// Where `cursor` or `cursor_fg` is missing, `FFFFFF` and `000000` are written
/// in its place.
pub fn create_kitty_theeme(
    base16_colors: &Base16Colors,
    kitty_path: &String,
    theme_name: &String,
) -> (r: Result<ThemeFile, RenderError>)
    ensures
        written_of(r) == rendered(Target::Kitty, base16_colors@, kitty_path@, theme_name@),
{
    render(Target::Kitty, base16_colors, kitty_path.as_str(), theme_name.as_str())
}

} // verus!
