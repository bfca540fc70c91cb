//! Readers: from the text of a terminal's own theme file to the canonical color
//! model.

use crate::bridge::{parse_document, regex_search, search, toml_document};
use crate::colors::Base16Colors;
use crate::text::{
    after_last, begins_with, chars_of, contains_word, decimal, find, is_word, lemma_position_is,
    lines_of, margin, occurs, owned, position, remove_char, slice, split_lines, split_words,
    starts_with_word, string_of, tail_after, to_decimal, trim, trim_by, trimmed, trimmed_by,
    views, without_char, words_of,
};
use vstd::prelude::*;
use vstd::string::StringExecFns;

verus! {

/// The place of a color name in the ANSI order: black, red, green, yellow, blue,
/// magenta, cyan, white.
pub open spec fn ansi_position(name: Seq<char>) -> Option<nat> {
    if name == "black"@ {
        Some(0)
    } else if name == "red"@ {
        Some(1)
    } else if name == "green"@ {
        Some(2)
    } else if name == "yellow"@ {
        Some(3)
    } else if name == "blue"@ {
        Some(4)
    } else if name == "magenta"@ {
        Some(5)
    } else if name == "cyan"@ {
        Some(6)
    } else if name == "white"@ {
        Some(7)
    } else {
        None
    }
}

/// The name of the color at a place of the ANSI order.
pub open spec fn ansi_name(place: nat) -> Seq<char>
    recommends
        place < 8,
{
    if place == 0 {
        "black"@
    } else if place == 1 {
        "red"@
    } else if place == 2 {
        "green"@
    } else if place == 3 {
        "yellow"@
    } else if place == 4 {
        "blue"@
    } else if place == 5 {
        "magenta"@
    } else if place == 6 {
        "cyan"@
    } else {
        "white"@
    }
}

/// The eight normal colors, which fill the palette indices 0 to 7.
#[derive(Debug, Clone, Copy, PartialEq, Eq, Structural)]
pub enum AlacrittyColorsNormal {
    Black,
    Red,
    Green,
    Yellow,
    Blue,
    Magenta,
    Cyan,
    White,
}

/// The eight bright colors, which fill the palette indices 8 to 15.
#[derive(Debug, Clone, Copy, PartialEq, Eq, Structural)]
pub enum AlacrittyColorsBright {
    Black,
    Red,
    Green,
    Yellow,
    Blue,
    Magenta,
    Cyan,
    White,
}

impl AlacrittyColorsNormal {
    /// The color at a place of the ANSI order.
    pub open spec fn at(place: nat) -> Self
        recommends
            place < 8,
    {
        if place == 0 {
            AlacrittyColorsNormal::Black
        } else if place == 1 {
            AlacrittyColorsNormal::Red
        } else if place == 2 {
            AlacrittyColorsNormal::Green
        } else if place == 3 {
            AlacrittyColorsNormal::Yellow
        } else if place == 4 {
            AlacrittyColorsNormal::Blue
        } else if place == 5 {
            AlacrittyColorsNormal::Magenta
        } else if place == 6 {
            AlacrittyColorsNormal::Cyan
        } else {
            AlacrittyColorsNormal::White
        }
    }

    /// The palette index that the color fills.
    pub open spec fn slot(self) -> nat {
        match self {
            AlacrittyColorsNormal::Black => 0,
            AlacrittyColorsNormal::Red => 1,
            AlacrittyColorsNormal::Green => 2,
            AlacrittyColorsNormal::Yellow => 3,
            AlacrittyColorsNormal::Blue => 4,
            AlacrittyColorsNormal::Magenta => 5,
            AlacrittyColorsNormal::Cyan => 6,
            AlacrittyColorsNormal::White => 7,
        }
    }

    /// The color that `name` names, if it names one.
    pub open spec fn named(name: Seq<char>) -> Option<Self> {
        match ansi_position(name) {
            Some(place) => Some(Self::at(place)),
            None => None,
        }
    }

    /// The normal color called `color_str`: one of the eight lower-case names of
    /// the ANSI order, and nothing for any other text.
    pub fn from_str(color_str: &str) -> (r: Option<AlacrittyColorsNormal>)
        ensures
            r == Self::named(color_str@),
            r is Some <==> ansi_position(color_str@) is Some,
            r matches Some(color) ==> Some(color.slot()) == ansi_position(color_str@),
    {
        let name = chars_of(color_str);
        if is_word(&name, "black") {
            Some(AlacrittyColorsNormal::Black)
        } else if is_word(&name, "red") {
            Some(AlacrittyColorsNormal::Red)
        } else if is_word(&name, "green") {
            Some(AlacrittyColorsNormal::Green)
        } else if is_word(&name, "yellow") {
            Some(AlacrittyColorsNormal::Yellow)
        } else if is_word(&name, "blue") {
            Some(AlacrittyColorsNormal::Blue)
        } else if is_word(&name, "magenta") {
            Some(AlacrittyColorsNormal::Magenta)
        } else if is_word(&name, "cyan") {
            Some(AlacrittyColorsNormal::Cyan)
        } else if is_word(&name, "white") {
            Some(AlacrittyColorsNormal::White)
        } else {
            None
        }
    }

    /// The palette index that the color fills: 0 for black up to 7 for white.
    pub fn index(self) -> (r: usize)
        ensures
            r == self.slot(),
            r < 8,
    {
        match self {
            AlacrittyColorsNormal::Black => 0,
            AlacrittyColorsNormal::Red => 1,
            AlacrittyColorsNormal::Green => 2,
            AlacrittyColorsNormal::Yellow => 3,
            AlacrittyColorsNormal::Blue => 4,
            AlacrittyColorsNormal::Magenta => 5,
            AlacrittyColorsNormal::Cyan => 6,
            AlacrittyColorsNormal::White => 7,
        }
    }
}

impl AlacrittyColorsBright {
    /// The color at a place of the ANSI order.
    pub open spec fn at(place: nat) -> Self
        recommends
            place < 8,
    {
        if place == 0 {
            AlacrittyColorsBright::Black
        } else if place == 1 {
            AlacrittyColorsBright::Red
        } else if place == 2 {
            AlacrittyColorsBright::Green
        } else if place == 3 {
            AlacrittyColorsBright::Yellow
        } else if place == 4 {
            AlacrittyColorsBright::Blue
        } else if place == 5 {
            AlacrittyColorsBright::Magenta
        } else if place == 6 {
            AlacrittyColorsBright::Cyan
        } else {
            AlacrittyColorsBright::White
        }
    }

    /// The palette index that the color fills.
    pub open spec fn slot(self) -> nat {
        match self {
            AlacrittyColorsBright::Black => 8,
            AlacrittyColorsBright::Red => 9,
            AlacrittyColorsBright::Green => 10,
            AlacrittyColorsBright::Yellow => 11,
            AlacrittyColorsBright::Blue => 12,
            AlacrittyColorsBright::Magenta => 13,
            AlacrittyColorsBright::Cyan => 14,
            AlacrittyColorsBright::White => 15,
        }
    }

    /// The color that `name` names, if it names one.
    pub open spec fn named(name: Seq<char>) -> Option<Self> {
        match ansi_position(name) {
            Some(place) => Some(Self::at(place)),
            None => None,
        }
    }

    /// The bright color called `color_str`: one of the eight lower-case names of
    /// the ANSI order, and nothing for any other text.
    pub fn from_str(color_str: &str) -> (r: Option<AlacrittyColorsBright>)
        ensures
            r == Self::named(color_str@),
            r is Some <==> ansi_position(color_str@) is Some,
            r matches Some(color) ==> Some((color.slot() - 8) as nat) == ansi_position(
                color_str@,
            ),
    {
        let name = chars_of(color_str);
        if is_word(&name, "black") {
            Some(AlacrittyColorsBright::Black)
        } else if is_word(&name, "red") {
            Some(AlacrittyColorsBright::Red)
        } else if is_word(&name, "green") {
            Some(AlacrittyColorsBright::Green)
        } else if is_word(&name, "yellow") {
            Some(AlacrittyColorsBright::Yellow)
        } else if is_word(&name, "blue") {
            Some(AlacrittyColorsBright::Blue)
        } else if is_word(&name, "magenta") {
            Some(AlacrittyColorsBright::Magenta)
        } else if is_word(&name, "cyan") {
            Some(AlacrittyColorsBright::Cyan)
        } else if is_word(&name, "white") {
            Some(AlacrittyColorsBright::White)
        } else {
            None
        }
    }

    /// The palette index that the color fills: 8 for black up to 15 for white.
    pub fn index(self) -> (r: usize)
        ensures
            r == self.slot(),
            8 <= r < 16,
    {
        match self {
            AlacrittyColorsBright::Black => 8,
            AlacrittyColorsBright::Red => 9,
            AlacrittyColorsBright::Green => 10,
            AlacrittyColorsBright::Yellow => 11,
            AlacrittyColorsBright::Blue => 12,
            AlacrittyColorsBright::Magenta => 13,
            AlacrittyColorsBright::Cyan => 14,
            AlacrittyColorsBright::White => 15,
        }
    }
}

/// The name of the palette slot with index `n`: `color0`, `color1`, and so on.
pub open spec fn color_key(n: nat) -> Seq<char> {
    "color"@ + decimal(n)
}

/// The name of the palette slot with index `n`.
pub fn palette_key(n: usize) -> (r: Vec<char>)
    ensures
        r@ == color_key(n as nat),
{
    let mut r = chars_of("color");
    let mut digits = to_decimal(n);
    r.append(&mut digits);
    r
}

/// A comment line: one whose first character is `#`.
pub open spec fn is_comment(line: Seq<char>) -> bool {
    line.len() > 0 && line[0] == '#'
}

/// A raw value made clean: white space, double quotes and separators are taken
/// from both ends, then every `#` and every single quote is taken out.
pub open spec fn clean_value(raw: Seq<char>) -> Seq<char> {
    without_char(without_char(trimmed_by(raw, margin(true)), '#'), '\'')
}

/// The key and the clean value of a `key: value` line. The line is trimmed and
/// cut at its first `:`. A comment, or a line without a `:`, has neither.
pub open spec fn keyed_entry(line: Seq<char>) -> Option<(Seq<char>, Seq<char>)> {
    let body = trimmed(line);
    let cut = position(body, ':');
    if is_comment(line) || cut >= body.len() {
        None
    } else {
        Some((body.take(cut), clean_value(body.skip(cut))))
    }
}

/// The slot that a key names outright: `background`, `foreground` and `cursor`
/// name themselves, and `text` names the cursor's foreground.
pub open spec fn named_slot(key: Seq<char>) -> Option<Seq<char>> {
    if key == "background"@ {
        Some("background"@)
    } else if key == "foreground"@ {
        Some("foreground"@)
    } else if key == "cursor"@ {
        Some("cursor"@)
    } else if key == "text"@ {
        Some("cursor_fg"@)
    } else {
        None
    }
}

/// A key that opens a section, and so carries no color of its own.
pub open spec fn is_header(key: Seq<char>) -> bool {
    ||| begins_with(key, "color"@)
    ||| begins_with(key, "primary"@)
    ||| begins_with(key, "cursor"@)
    ||| begins_with(key, "normal"@)
    ||| begins_with(key, "bright"@)
}

/// How far the reading of a `key: value` theme has come: the slots filled so
/// far, and the palette index that the next unnamed color will get.
pub struct Keyed {
    pub colors: Map<Seq<char>, Seq<char>>,
    pub next: nat,
}

/// The state before the first line.
pub open spec fn keyed_start() -> Keyed {
    Keyed { colors: Map::empty(), next: 0 }
}

/// What one line does to the state. A named slot is stored under its canonical
/// name; a header changes nothing; any other key fills the next palette index.
pub open spec fn keyed_step(state: Keyed, line: Seq<char>) -> Keyed {
    match keyed_entry(line) {
        None => state,
        Some((key, value)) => match named_slot(key) {
            Some(slot) => Keyed { colors: state.colors.insert(slot, value), next: state.next },
            None => if is_header(key) {
                state
            } else {
                Keyed {
                    colors: state.colors.insert(color_key(state.next), value),
                    next: state.next + 1,
                }
            },
        },
    }
}

/// The state after all of `lines`, read in order.
pub open spec fn keyed_fold(lines: Seq<Seq<char>>) -> Keyed
    decreases lines.len(),
{
    if lines.len() == 0 {
        keyed_start()
    } else {
        keyed_step(keyed_fold(lines.drop_last()), lines.last())
    }
}

/// The model that a `key: value` theme describes.
pub open spec fn keyed_colors(text: Seq<char>) -> Map<Seq<char>, Seq<char>> {
    keyed_fold(lines_of(text)).colors
}

/// The canonical name of the slot that `key` names outright, if it names one.
fn direct_slot(key: &Vec<char>) -> (r: Option<Vec<char>>)
    ensures
        r is Some <==> named_slot(key@) is Some,
        r matches Some(slot) ==> Some(slot@) == named_slot(key@),
{
    if is_word(key, "background") {
        Some(chars_of("background"))
    } else if is_word(key, "foreground") {
        Some(chars_of("foreground"))
    } else if is_word(key, "cursor") {
        Some(chars_of("cursor"))
    } else if is_word(key, "text") {
        Some(chars_of("cursor_fg"))
    } else {
        None
    }
}

/// Whether `key` opens a section.
fn opens_section(key: &Vec<char>) -> (r: bool)
    ensures
        r == is_header(key@),
{
    starts_with_word(key, "color") || starts_with_word(key, "primary") || starts_with_word(
        key,
        "cursor",
    ) || starts_with_word(key, "normal") || starts_with_word(key, "bright")
}

/// Cleans a raw value.
fn clean(raw: &Vec<char>) -> (r: Vec<char>)
    ensures
        r@ == clean_value(raw@),
{
    let peeled = trim_by(raw, true);
    let unmarked = remove_char(&peeled, '#');
    remove_char(&unmarked, '\'')
}

/// Reads one line into `colors` and returns the palette index that the next
/// unnamed color will get.
fn read_keyed_line(colors: &mut Base16Colors, next: usize, line: &Vec<char>) -> (r: usize)
    requires
        next < usize::MAX,
    ensures
        (Keyed { colors: final(colors)@, next: r as nat }) == keyed_step(
            Keyed { colors: old(colors)@, next: next as nat },
            line@,
        ),
{
    if line.len() > 0 && line[0] == '#' {
        return next;
    }
    let body = trim(line);
    let cut = find(&body, ':');
    if cut >= body.len() {
        return next;
    }
    let key = slice(&body, 0, cut);
    let raw = slice(&body, cut, body.len());
    let value = clean(&raw);
    proof {
        assert(body@.take(cut as int) =~= body@.subrange(0, cut as int));
        assert(body@.skip(cut as int) =~= body@.subrange(cut as int, body@.len() as int));
    }
    match direct_slot(&key) {
        Some(slot) => {
            colors.insert(string_of(&slot), string_of(&value));
            next
        },
        None => {
            if opens_section(&key) {
                next
            } else {
                colors.insert(string_of(&palette_key(next)), string_of(&value));
                next + 1
            }
        },
    }
}

/// Reads a theme written as `key: value` lines, one color to a line.
///
/// Comment lines and lines without a `:` are passed over. `background`,
/// `foreground`, `cursor` and `text` fill the slots `background`, `foreground`,
/// `cursor` and `cursor_fg`. Keys that start with `color`, `primary`, `cursor`,
/// `normal` or `bright` are section headers. Every other key is one color of the
/// palette: the first fills `color0`, the next `color1`, and so on in the order
/// of the lines, whatever the key says. A later line replaces what an earlier one
/// stored under the same slot.
pub fn read_keyed_lines(text: &str) -> (r: Base16Colors)
    ensures
        r@ == keyed_colors(text@),
{
    let chars = chars_of(text);
    let lines = split_lines(&chars);
    let mut colors = Base16Colors::new();
    let mut next: usize = 0;
    let mut i: usize = 0;
    assert(views(lines@).take(0) =~= Seq::<Seq<char>>::empty());
    while i < lines.len()
        invariant
            i <= lines.len(),
            next <= i,
            views(lines@) == lines_of(text@),
            (Keyed { colors: colors@, next: next as nat }) == keyed_fold(
                views(lines@).take(i as int),
            ),
        decreases lines.len() - i,
    {
        proof {
            let done = views(lines@).take(i + 1);
            assert(done.drop_last() =~= views(lines@).take(i as int));
            assert(done.last() == lines@[i as int]@);
        }
        next = read_keyed_line(&mut colors, next, &lines[i]);
        i += 1;
    }
    assert(views(lines@).take(i as int) =~= views(lines@));
    colors
}

/// Why a theme could not be read.
#[derive(Debug, Clone, PartialEq, Eq)]
pub enum ParseError {
    /// A directive takes its value from a slot that no earlier line has filled.
    UnresolvedAlias { alias: String, target: String },
    /// The text is not a document of tables.
    MalformedDocument,
    /// A table that the theme must have is absent, or is not a table.
    MissingTable(String),
    /// The value of a color is not a string; the key is given.
    NotText(String),
}

/// The view of a `ParseError`.
pub enum ParseFailure {
    UnresolvedAlias { alias: Seq<char>, target: Seq<char> },
    MalformedDocument,
    MissingTable(Seq<char>),
    NotText(Seq<char>),
}

impl View for ParseError {
    type V = ParseFailure;

    open spec fn view(&self) -> ParseFailure {
        match self {
            ParseError::UnresolvedAlias { alias, target } => ParseFailure::UnresolvedAlias {
                alias: alias@,
                target: target@,
            },
            ParseError::MalformedDocument => ParseFailure::MalformedDocument,
            ParseError::MissingTable(name) => ParseFailure::MissingTable(name@),
            ParseError::NotText(key) => ParseFailure::NotText(key@),
        }
    }
}

impl ParseError {
    /// The error in words.
    pub open spec fn words(self) -> Seq<char> {
        match self {
            ParseError::UnresolvedAlias { alias, target } => alias@ + " takes its value from "@
                + target@ + ", which no earlier line has set"@,
            ParseError::MalformedDocument => "the theme is not a TOML document"@,
            ParseError::MissingTable(name) => "the theme has no table "@ + name@,
            ParseError::NotText(key) => "the value of "@ + key@ + " is not a string"@,
        }
    }

    /// The error in words, for the user.
    pub fn message(&self) -> (r: String)
        ensures
            r@ == self.words(),
    {
        match self {
            ParseError::UnresolvedAlias { alias, target } => {
                let mut r = alias.clone();
                r.append(" takes its value from ");
                r.append(target.as_str());
                r.append(", which no earlier line has set");
                r
            },
            ParseError::MalformedDocument => owned("the theme is not a TOML document"),
            ParseError::MissingTable(name) => {
                let mut r = owned("the theme has no table ");
                r.append(name.as_str());
                r
            },
            ParseError::NotText(key) => {
                let mut r = owned("the value of ");
                r.append(key.as_str());
                r.append(" is not a string");
                r
            },
        }
    }
}

/// What a reader owes: a model, or the reason why there is none.
pub type Reading = Result<Map<Seq<char>, Seq<char>>, ParseFailure>;

/// What a reader returned, seen as a `Reading`.
pub open spec fn reading_of(r: Result<Base16Colors, ParseError>) -> Reading {
    match r {
        Ok(colors) => Ok(colors@),
        Err(error) => Err(error@),
    }
}

/// The entries of a table whose values are read as text: each key with its
/// value where that is a string, and without it where it is anything else.
pub type Leaves = Vec<(String, Option<String>)>;

/// The entries of a table whose values are read as tables of text: each key
/// with the entries of its value where that is a table.
pub type Sections = Vec<(String, Option<Leaves>)>;

/// The entries of a document, read three levels deep: each key with the entries
/// of its value where that is a table.
pub type Document = Vec<(String, Option<Sections>)>;

/// The view of `Leaves`.
pub type LeavesView = Seq<(Seq<char>, Option<Seq<char>>)>;

/// The view of `Sections`.
pub type SectionsView = Seq<(Seq<char>, Option<LeavesView>)>;

/// The view of `Document`.
pub type DocumentView = Seq<(Seq<char>, Option<SectionsView>)>;

/// The four tables of colors that a theme written as tables holds.
#[derive(Debug, Clone, Copy, PartialEq, Eq, Structural)]
pub enum Section {
    Normal,
    Bright,
    Cursor,
    Primary,
}

impl Section {
    /// The key under which the table stands.
    pub open spec fn name(self) -> Seq<char> {
        match self {
            Section::Normal => "normal"@,
            Section::Bright => "bright"@,
            Section::Cursor => "cursor"@,
            Section::Primary => "primary"@,
        }
    }

    /// The slot that a key of the table fills. In the palette tables the eight
    /// color names fill their place of the ANSI order and other keys fill
    /// nothing. In the cursor table `text` fills `cursor_fg`. Every other key
    /// fills the slot of its own name.
    pub open spec fn slot_for(self, key: Seq<char>) -> Option<Seq<char>> {
        match self {
            Section::Normal => match AlacrittyColorsNormal::named(key) {
                Some(color) => Some(color_key(color.slot())),
                None => None,
            },
            Section::Bright => match AlacrittyColorsBright::named(key) {
                Some(color) => Some(color_key(color.slot())),
                None => None,
            },
            Section::Cursor => if key == "text"@ {
                Some("cursor_fg"@)
            } else {
                Some(key)
            },
            Section::Primary => Some(key),
        }
    }

    /// The key under which the table stands.
    pub fn key(self) -> (r: String)
        ensures
            r@ == self.name(),
    {
        match self {
            Section::Normal => owned("normal"),
            Section::Bright => owned("bright"),
            Section::Cursor => owned("cursor"),
            Section::Primary => owned("primary"),
        }
    }

    /// The slot that `key` fills in this table, if it fills one.
    pub fn slot(self, key: &String) -> (r: Option<String>)
        ensures
            r.deep_view() == self.slot_for(key@),
    {
        match self {
            Section::Normal => match AlacrittyColorsNormal::from_str(key.as_str()) {
                Some(color) => Some(string_of(&palette_key(color.index()))),
                None => None,
            },
            Section::Bright => match AlacrittyColorsBright::from_str(key.as_str()) {
                Some(color) => Some(string_of(&palette_key(color.index()))),
                None => None,
            },
            Section::Cursor => {
                if is_word(&chars_of(key.as_str()), "text") {
                    Some(owned("cursor_fg"))
                } else {
                    Some(key.clone())
                }
            },
            Section::Primary => Some(key.clone()),
        }
    }
}

/// The keys of a table's entries, in order.
pub open spec fn keys_of<T>(entries: Seq<(Seq<char>, T)>) -> Seq<Seq<char>> {
    entries.map_values(|entry: (Seq<char>, T)| entry.0)
}

/// The table that stands under `name` among `entries`: the value of the first
/// entry with that key, if there is one and it is a table.
pub open spec fn table_at<T>(entries: Seq<(Seq<char>, Option<T>)>, name: Seq<char>) -> Option<T> {
    let at = position(keys_of(entries), name);
    if 0 <= at < entries.len() {
        entries[at].1
    } else {
        None
    }
}

/// What one entry of a table does to the model. A key that fills no slot is
/// passed over. A key that fills one must have a string as its value, which is
/// stored without its `#`.
pub open spec fn leaf_step(
    colors: Map<Seq<char>, Seq<char>>,
    section: Section,
    leaf: (Seq<char>, Option<Seq<char>>),
) -> Reading {
    match section.slot_for(leaf.0) {
        None => Ok(colors),
        Some(slot) => match leaf.1 {
            Some(text) => Ok(colors.insert(slot, without_char(text, '#'))),
            None => Err(ParseFailure::NotText(leaf.0)),
        },
    }
}

/// What the entries of a table do to the model, read in order up to the first
/// that fails.
pub open spec fn leaves_fold(
    colors: Map<Seq<char>, Seq<char>>,
    section: Section,
    leaves: LeavesView,
) -> Reading
    decreases leaves.len(),
{
    if leaves.len() == 0 {
        Ok(colors)
    } else {
        match leaves_fold(colors, section, leaves.drop_last()) {
            Ok(before) => leaf_step(before, section, leaves.last()),
            Err(failure) => Err(failure),
        }
    }
}

/// What one of the four tables does to the model. The table must be there.
pub open spec fn section_step(
    colors: Map<Seq<char>, Seq<char>>,
    sections: SectionsView,
    section: Section,
) -> Reading {
    match table_at(sections, section.name()) {
        Some(leaves) => leaves_fold(colors, section, leaves),
        None => Err(ParseFailure::MissingTable(section.name())),
    }
}

/// The model that the tables under `colors` describe: `normal`, `bright`,
/// `cursor` and `primary` are read in this order into an empty model, and the
/// first failure ends the reading.
pub open spec fn sections_colors(sections: SectionsView) -> Reading {
    match section_step(Map::empty(), sections, Section::Normal) {
        Err(failure) => Err(failure),
        Ok(normal) => match section_step(normal, sections, Section::Bright) {
            Err(failure) => Err(failure),
            Ok(bright) => match section_step(bright, sections, Section::Cursor) {
                Err(failure) => Err(failure),
                Ok(cursor) => section_step(cursor, sections, Section::Primary),
            },
        },
    }
}

/// The model that a document of tables describes.
pub open spec fn document_colors(document: DocumentView) -> Reading {
    match table_at(document, "colors"@) {
        Some(sections) => sections_colors(sections),
        None => Err(ParseFailure::MissingTable("colors"@)),
    }
}

/// The model that a theme written as a TOML document describes.
pub open spec fn table_colors(text: Seq<char>) -> Reading {
    match toml_document(text) {
        Some(document) => document_colors(document),
        None => Err(ParseFailure::MalformedDocument),
    }
}

/// Once the entries read so far have failed, the rest changes nothing.
pub proof fn lemma_leaves_fold_fails(
    colors: Map<Seq<char>, Seq<char>>,
    section: Section,
    leaves: LeavesView,
    k: int,
)
    requires
        0 <= k <= leaves.len(),
        leaves_fold(colors, section, leaves.take(k)) is Err,
    ensures
        leaves_fold(colors, section, leaves) == leaves_fold(colors, section, leaves.take(k)),
    decreases leaves.len() - k,
{
    if k == leaves.len() {
        assert(leaves.take(k) =~= leaves);
    } else {
        assert(leaves.drop_last().take(k) =~= leaves.take(k));
        lemma_leaves_fold_fails(colors, section, leaves.drop_last(), k);
    }
}

/// The table that stands under `name` among `entries`.
fn find_table<'a, T: DeepView>(entries: &'a Vec<(String, Option<T>)>, name: &str) -> (r: Option<
    &'a T,
>)
    ensures
        r.deep_view() == table_at(entries.deep_view(), name@),
{
    let wanted = chars_of(name);
    let mut i: usize = 0;
    while i < entries.len()
        invariant
            i <= entries.len(),
            wanted@ == name@,
            forall|j: int| 0 <= j < i ==> #[trigger] keys_of(entries.deep_view())[j] != name@,
        decreases entries.len() - i,
    {
        if is_word(&wanted, entries[i].0.as_str()) {
            proof {
                assert(keys_of(entries.deep_view())[i as int] == name@);
                lemma_position_is(keys_of(entries.deep_view()), name@, i as int);
            }
            return match &entries[i].1 {
                Some(table) => Some(table),
                None => None,
            };
        }
        i += 1;
    }
    proof {
        lemma_position_is(keys_of(entries.deep_view()), name@, i as int);
    }
    None
}

/// Reads the entries of one table into `colors`.
fn read_leaves(colors: &mut Base16Colors, section: Section, leaves: &Leaves) -> (r: Result<
    (),
    ParseError,
>)
    ensures
        match leaves_fold(old(colors)@, section, leaves.deep_view()) {
            Ok(after) => r is Ok && final(colors)@ == after,
            Err(failure) => r is Err && r->Err_0@ == failure,
        },
{
    let ghost all = leaves.deep_view();
    let mut i: usize = 0;
    assert(all.take(0) =~= Seq::empty());
    while i < leaves.len()
        invariant
            i <= leaves.len(),
            all == leaves.deep_view(),
            leaves_fold(old(colors)@, section, all.take(i as int)) == Ok::<
                Map<Seq<char>, Seq<char>>,
                ParseFailure,
            >(colors@),
        decreases leaves.len() - i,
    {
        proof {
            let done = all.take(i + 1);
            assert(done.drop_last() =~= all.take(i as int));
            assert(done.last() == (leaves[i as int].0@, leaves[i as int].1.deep_view()));
        }
        match section.slot(&leaves[i].0) {
            None => {},
            Some(slot) => match &leaves[i].1 {
                Some(text) => {
                    let value = remove_char(&chars_of(text.as_str()), '#');
                    colors.insert(slot, string_of(&value));
                },
                None => {
                    proof {
                        lemma_leaves_fold_fails(old(colors)@, section, all, i + 1);
                    }
                    return Err(ParseError::NotText(leaves[i].0.clone()));
                },
            },
        }
        i += 1;
    }
    assert(all.take(i as int) =~= all);
    Ok(())
}

/// Reads one of the four tables into `colors`.
fn read_section(colors: &mut Base16Colors, sections: &Sections, section: Section) -> (r: Result<
    (),
    ParseError,
>)
    ensures
        match section_step(old(colors)@, sections.deep_view(), section) {
            Ok(after) => r is Ok && final(colors)@ == after,
            Err(failure) => r is Err && r->Err_0@ == failure,
        },
{
    let name = section.key();
    match find_table(sections, name.as_str()) {
        Some(leaves) => read_leaves(colors, section, leaves),
        None => Err(ParseError::MissingTable(name)),
    }
}

/// Reads the model out of a document of tables.
///
/// The document must hold a table `colors`, and that table the tables `normal`,
/// `bright`, `cursor` and `primary`, which are read in this order. In `normal`
/// and `bright` the keys `black`, `red`, `green`, `yellow`, `blue`, `magenta`,
/// `cyan` and `white` fill `color0` to `color7` and `color8` to `color15`; other
/// keys are passed over. In `cursor` the key `text` fills `cursor_fg` and every
/// other key the slot of its own name, as every key of `primary` does. Values
/// are stored without their `#`. The first table that is missing, or the first
/// color whose value is not a string, ends the reading with an error.
pub fn colors_from_document(document: &Document) -> (r: Result<Base16Colors, ParseError>)
    ensures
        reading_of(r) == document_colors(document.deep_view()),
{
    let sections = match find_table(document, "colors") {
        Some(sections) => sections,
        None => { return Err(ParseError::MissingTable(owned("colors"))); },
    };
    let mut colors = Base16Colors::new();
    match read_section(&mut colors, sections, Section::Normal) {
        Err(error) => { return Err(error); },
        Ok(()) => {},
    }
    match read_section(&mut colors, sections, Section::Bright) {
        Err(error) => { return Err(error); },
        Ok(()) => {},
    }
    match read_section(&mut colors, sections, Section::Cursor) {
        Err(error) => { return Err(error); },
        Ok(()) => {},
    }
    match read_section(&mut colors, sections, Section::Primary) {
        Err(error) => { return Err(error); },
        Ok(()) => {},
    }
    Ok(colors)
}

/// Reads a theme written as a TOML document: see `colors_from_document` for what
/// is read out of the document. A text that is not a TOML document is an error.
pub fn read_tables(text: &str) -> (r: Result<Base16Colors, ParseError>)
    ensures
        reading_of(r) == table_colors(text@),
{
    match parse_document(text) {
        Ok(document) => colors_from_document(&document),
        Err(_) => Err(ParseError::MalformedDocument),
    }
}

/// The regular expression for `background` as a whole word.
pub const BACKGROUND_WORD: &'static str = "\\bbackground\\b";

/// The regular expression for `foreground` as a whole word.
pub const FOREGROUND_WORD: &'static str = "\\bforeground\\b";

/// Whether `word` speaks of a color: it holds `color` or `cursor` somewhere, or
/// `background` or `foreground` as a whole word, as the regular expressions
/// `BACKGROUND_WORD` and `FOREGROUND_WORD` find it. An expression that the
/// engine does not accept finds nothing.
pub open spec fn color_relevant(word: Seq<char>) -> bool {
    ||| occurs(word, "color"@)
    ||| occurs(word, "cursor"@)
    ||| regex_search(BACKGROUND_WORD@, word) == Some(true)
    ||| regex_search(FOREGROUND_WORD@, word) == Some(true)
}

/// Whether `line` speaks of a color.
pub fn check_color(line: &str) -> (r: bool)
    ensures
        r == color_relevant(line@),
{
    let chars = chars_of(line);
    if contains_word(&chars, "color") || contains_word(&chars, "cursor") {
        return true;
    }
    let background = match search(BACKGROUND_WORD, line) {
        Ok(found) => found,
        Err(_) => false,
    };
    if background {
        return true;
    }
    match search(FOREGROUND_WORD, line) {
        Ok(found) => found,
        Err(_) => false,
    }
}

/// The slot that a directive fills, or that an alias points to: `cursor_fg` for
/// `cursor_text_color`, and for every other word the slot of that name.
pub open spec fn canonical_key(word: Seq<char>) -> Seq<char> {
    if word == "cursor_text_color"@ {
        "cursor_fg"@
    } else {
        word
    }
}

/// What a directive does to the model. Where its value is an alias, the
/// directive's slot gets the value that the alias's slot holds, and the
/// directive fails where that slot holds none. Otherwise its slot gets the
/// value as it is written.
pub open spec fn directive_step(
    colors: Map<Seq<char>, Seq<char>>,
    directive: Seq<char>,
    value: Seq<char>,
    alias: bool,
) -> Reading {
    if !alias {
        Ok(colors.insert(canonical_key(directive), value))
    } else if colors.contains_key(canonical_key(value)) {
        Ok(colors.insert(canonical_key(directive), colors[canonical_key(value)]))
    } else {
        Err(ParseFailure::UnresolvedAlias { alias: directive, target: value })
    }
}

/// The name of a directive: the first word of the line, without its `#`.
pub open spec fn directive_name(line: Seq<char>) -> Seq<char> {
    without_char(words_of(line)[0], '#')
}

/// The value of a directive: the second word of the line, without its `#`.
pub open spec fn directive_value(line: Seq<char>) -> Seq<char> {
    without_char(words_of(line)[1], '#')
}

/// Whether a line is a directive on a color: it is no comment, it has at least
/// two words, and its name speaks of a color.
pub open spec fn is_directive(line: Seq<char>) -> bool {
    &&& !is_comment(line)
    &&& words_of(line).len() >= 2
    &&& color_relevant(directive_name(line))
}

/// Whether a line is a directive whose value is an alias: it speaks of a color
/// itself, and so names the slot to take the value from.
pub open spec fn is_alias(line: Seq<char>) -> bool {
    is_directive(line) && color_relevant(directive_value(line))
}

/// What one line of directives does to the model. A line that is no directive
/// changes nothing.
pub open spec fn directive_line_step(
    colors: Map<Seq<char>, Seq<char>>,
    line: Seq<char>,
) -> Reading {
    if is_directive(line) {
        directive_step(colors, directive_name(line), directive_value(line), is_alias(line))
    } else {
        Ok(colors)
    }
}

/// What `lines` do to an empty model, read in order up to the first that fails.
pub open spec fn directives_fold(lines: Seq<Seq<char>>) -> Reading
    decreases lines.len(),
{
    if lines.len() == 0 {
        Ok(Map::empty())
    } else {
        match directives_fold(lines.drop_last()) {
            Ok(before) => directive_line_step(before, lines.last()),
            Err(failure) => Err(failure),
        }
    }
}

/// The model that a theme written as directives describes.
pub open spec fn directive_colors(text: Seq<char>) -> Reading {
    directives_fold(lines_of(trimmed(text)))
}

/// Once the lines read so far have failed, the rest changes nothing.
pub proof fn lemma_directives_fold_fails(lines: Seq<Seq<char>>, k: int)
    requires
        0 <= k <= lines.len(),
        directives_fold(lines.take(k)) is Err,
    ensures
        directives_fold(lines) == directives_fold(lines.take(k)),
    decreases lines.len() - k,
{
    if k == lines.len() {
        assert(lines.take(k) =~= lines);
    } else {
        assert(lines.drop_last().take(k) =~= lines.take(k));
        lemma_directives_fold_fails(lines.drop_last(), k);
    }
}

/// The canonical name of the slot that `word` stands for.
fn canonical(word: &Vec<char>) -> (r: String)
    ensures
        r@ == canonical_key(word@),
{
    if is_word(word, "cursor_text_color") {
        owned("cursor_fg")
    } else {
        string_of(word)
    }
}

/// Carries out one directive on `colors`.
///
/// `alias` says whether `value` is an alias, that is, names another slot. An
/// alias gives the directive's slot the value that the named slot holds now; the
/// directive fails, and `colors` stays as it is, where that slot holds nothing.
/// Any other value is stored as it is written. `cursor_text_color` stands for
/// the slot `cursor_fg`, as a directive and as an alias.
pub fn apply_directive(
    colors: &mut Base16Colors,
    directive: &str,
    value: &str,
    alias: bool,
) -> (r: Result<(), ParseError>)
    ensures
        match directive_step(old(colors)@, directive@, value@, alias) {
            Ok(after) => r is Ok && final(colors)@ == after,
            Err(failure) => r is Err && r->Err_0@ == failure && final(colors)@ == old(colors)@,
        },
{
    let slot = canonical(&chars_of(directive));
    if !alias {
        colors.insert(slot, owned(value));
        return Ok(());
    }
    let source = canonical(&chars_of(value));
    let found = match colors.get(source.as_str()) {
        Some(held) => Some(held.clone()),
        None => None,
    };
    match found {
        Some(held) => {
            colors.insert(slot, held);
            Ok(())
        },
        None => Err(ParseError::UnresolvedAlias { alias: owned(directive), target: owned(value) }),
    }
}

/// Reads one line of directives into `colors`.
fn read_directive_line(colors: &mut Base16Colors, line: &Vec<char>) -> (r: Result<(), ParseError>)
    ensures
        match directive_line_step(old(colors)@, line@) {
            Ok(after) => r is Ok && final(colors)@ == after,
            Err(failure) => r is Err && r->Err_0@ == failure,
        },
{
    if line.len() > 0 && line[0] == '#' {
        return Ok(());
    }
    let words = split_words(line);
    if words.len() < 2 {
        return Ok(());
    }
    assert(views(words@)[0] == words@[0]@);
    assert(views(words@)[1] == words@[1]@);
    let directive = string_of(&remove_char(&words[0], '#'));
    if !check_color(directive.as_str()) {
        return Ok(());
    }
    let value = string_of(&remove_char(&words[1], '#'));
    let alias = check_color(value.as_str());
    apply_directive(colors, directive.as_str(), value.as_str(), alias)
}

/// Reads a theme written as directives, one to a line: a name, white space, and
/// a value, as in `color4 #7aa2f7`.
///
/// The text is trimmed and read line by line. Comment lines, lines of fewer
/// than two words, and lines whose first word does not speak of a color are
/// passed over. Of the others the first two words count, each without its `#`.
/// A value that speaks of a color itself is an alias: the directive gets the
/// value that the named slot holds at that point of the reading, so the line
/// that fills the slot must come first. An alias to a slot that no earlier line
/// has filled ends the reading with `UnresolvedAlias`. `cursor_text_color`
/// stands for the slot `cursor_fg`; every other name stands for itself.
pub fn kitty_colors_to_base16_colors(text: &str) -> (r: Result<Base16Colors, ParseError>)
    ensures
        reading_of(r) == directive_colors(text@),
{
    let chars = trim(&chars_of(text));
    let lines = split_lines(&chars);
    let mut colors = Base16Colors::new();
    let mut i: usize = 0;
    let ghost all = views(lines@);
    assert(all.take(0) =~= Seq::<Seq<char>>::empty());
    while i < lines.len()
        invariant
            i <= lines.len(),
            all == views(lines@),
            all == lines_of(trimmed(text@)),
            directives_fold(all.take(i as int)) == Ok::<Map<Seq<char>, Seq<char>>, ParseFailure>(
                colors@,
            ),
        decreases lines.len() - i,
    {
        proof {
            let done = all.take(i + 1);
            assert(done.drop_last() =~= all.take(i as int));
            assert(done.last() == lines@[i as int]@);
        }
        match read_directive_line(&mut colors, &lines[i]) {
            Ok(()) => {},
            Err(error) => {
                proof {
                    lemma_directives_fold_fails(all, i + 1);
                }
                return Err(error);
            },
        }
        i += 1;
    }
    assert(all.take(i as int) =~= all);
    Ok(colors)
}

/// The name of the file that `path` leads to: what follows its last `/`.
pub open spec fn file_name(path: Seq<char>) -> Seq<char> {
    after_last(path, '/')
}

/// Whether `path` leads to a file of `key: value` lines: its file name has an
/// extension, and that is `yaml` or `yml`.
pub open spec fn is_keyed_path(path: Seq<char>) -> bool {
    let name = file_name(path);
    let extension = after_last(name, '.');
    position(name, '.') < name.len() && (extension == "yaml"@ || extension == "yml"@)
}

/// Whether `path` leads to a file of `key: value` lines.
pub fn names_keyed_lines(path: &str) -> (r: bool)
    ensures
        r == is_keyed_path(path@),
{
    let name = tail_after(&chars_of(path), '/');
    if find(&name, '.') >= name.len() {
        return false;
    }
    let extension = tail_after(&name, '.');
    is_word(&extension, "yaml") || is_word(&extension, "yml")
}

/// The model that an Alacritty theme describes: the file's extension says
/// whether its text is read as `key: value` lines or as a TOML document.
pub open spec fn alacritty_colors(path: Seq<char>, text: Seq<char>) -> Reading {
    if is_keyed_path(path) {
        Ok(keyed_colors(text))
    } else {
        table_colors(text)
    }
}

/// Reads an Alacritty theme from the text of the file at `path`.
///
/// A file with the extension `yaml` or `yml` is read as `key: value` lines (see
/// `read_keyed_lines`), and never fails. Any other file is read as a TOML
/// document (see `read_tables`).
pub fn alacritty_colors_to_base16_colors(path: &str, text: &str) -> (r: Result<
    Base16Colors,
    ParseError,
>)
    ensures
        reading_of(r) == alacritty_colors(path@, text@),
{
    if names_keyed_lines(path) {
        Ok(read_keyed_lines(text))
    } else {
        read_tables(text)
    }
}

} // verus!
