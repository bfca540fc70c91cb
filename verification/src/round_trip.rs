//! Writing a theme and reading it again: the palette of an Alacritty theme
//! file that a writer has made is the palette of the model it was made from.

use crate::laws::{
    is_complete, is_leaf, leaf_value, leaf_values, lemma_palette_follows_file_order,
};
use crate::text::{
    begins_with, blank, is_one_line, joined, lemma_joined_front, lemma_lines_of_joined,
    lemma_position_is, lemma_trimmed_padded, lemma_without_absent_char,
    lemma_without_leading_char, lemma_without_prefix, lemma_without_suffix,
    lemma_without_suffix_keeps, margin, trimmed, without_suffix, wrapping,
};
use crate::theme_creator::{
    alacritty_template, filled, filled_lines, part_text, rendered, Part, RenderFailure, Target,
    DEFAULT_CURSOR, DEFAULT_CURSOR_TEXT,
};
use crate::theme_parser::{
    ansi_name, clean_value, color_key, is_header, keyed_colors, keyed_entry, named_slot,
};
use vstd::prelude::*;

verus! {

/// A value that comes back from a quoted `key: "#value"` line as it went in: it
/// holds no line feed, no `#` and no single quote, and does not end in white
/// space, a double quote or a colon.
pub open spec fn is_tidy(value: Seq<char>) -> bool {
    &&& forall|j: int|
        0 <= j < value.len() ==> {
            &&& #[trigger] value[j] != '\n'
            &&& value[j] != '#'
            &&& value[j] != '\''
        }
    &&& value.len() > 0 ==> !wrapping(value.last())
}

/// A key as the `key: value` lines of a written theme hold it: not empty,
/// starting with a character that is no white space, and without a colon.
pub open spec fn is_plain_key(key: Seq<char>) -> bool {
    &&& key.len() > 0
    &&& !blank(key[0])
    &&& forall|j: int| 0 <= j < key.len() ==> #[trigger] key[j] != ':'
}

/// An indented line `key:..` has `key` as its key, whatever follows the colon.
pub proof fn lemma_entry_key(indent: Seq<char>, key: Seq<char>, rest: Seq<char>)
    requires
        forall|j: int| 0 <= j < indent.len() ==> blank(#[trigger] indent[j]),
        is_plain_key(key),
        indent.len() > 0 || key[0] != '#',
    ensures
        keyed_entry(indent + key + seq![':'] + rest) matches Some(entry) && entry.0 == key,
{
    let line = indent + key + seq![':'] + rest;
    let strip = margin(false);
    assert forall|j: int| 0 <= j < indent.len() implies strip(#[trigger] line[j]) by {
        assert(line[j] == indent[j]);
    }
    assert(line[indent.len() as int] == key[0]);
    lemma_without_prefix(line, strip, indent.len() as int);
    let inner = key + seq![':'] + rest;
    assert(line.skip(indent.len() as int) =~= inner);
    assert(inner[key.len() as int] == ':');
    lemma_without_suffix_keeps(inner, strip, key.len() as int);
    let body = without_suffix(inner, strip);
    assert(trimmed(line) == body);
    assert forall|j: int| 0 <= j < key.len() implies #[trigger] body[j] != ':' by {
        assert(body[j] == key[j]);
    }
    assert(body[key.len() as int] == ':');
    lemma_position_is(body, ':', key.len() as int);
    assert(body.take(key.len() as int) =~= key);
    if indent.len() > 0 {
        assert(line[0] == indent[0]);
    } else {
        assert(line[0] == key[0]);
    }
}

/// An indented line `key:..` that does not end in white space has `key` as its
/// key, and as its value what follows the key, made clean.
pub proof fn lemma_entry_tight(indent: Seq<char>, key: Seq<char>, rest: Seq<char>)
    requires
        forall|j: int| 0 <= j < indent.len() ==> blank(#[trigger] indent[j]),
        is_plain_key(key),
        indent.len() > 0 || key[0] != '#',
        rest.len() > 0 ==> !blank(rest.last()),
    ensures
        keyed_entry(indent + key + seq![':'] + rest) == Some(
            (key, clean_value(seq![':'] + rest)),
        ),
{
    let line = indent + key + seq![':'] + rest;
    let strip = margin(false);
    assert forall|j: int| 0 <= j < indent.len() implies strip(#[trigger] line[j]) by {
        assert(line[j] == indent[j]);
    }
    assert(line[indent.len() as int] == key[0]);
    lemma_without_prefix(line, strip, indent.len() as int);
    let body = key + seq![':'] + rest;
    assert(line.skip(indent.len() as int) =~= body);
    if rest.len() > 0 {
        assert(body.last() == rest.last());
    } else {
        assert(body.last() == ':');
    }
    lemma_without_suffix(body, strip, body.len() as int);
    assert(body.take(body.len() as int) =~= body);
    assert(trimmed(line) == body);
    assert forall|j: int| 0 <= j < key.len() implies #[trigger] body[j] != ':' by {
        assert(body[j] == key[j]);
    }
    assert(body[key.len() as int] == ':');
    lemma_position_is(body, ':', key.len() as int);
    assert(body.take(key.len() as int) =~= key);
    assert(body.skip(key.len() as int) =~= seq![':'] + rest);
    if indent.len() > 0 {
        assert(line[0] == indent[0]);
    } else {
        assert(line[0] == key[0]);
    }
}

/// A tidy value comes clean out of its quotes: `: "#value"` is cleaned to
/// `value`.
pub proof fn lemma_clean_quoted(value: Seq<char>)
    requires
        is_tidy(value),
    ensures
        clean_value(seq![':', ' ', '"', '#'] + value + seq!['"']) == value,
{
    let raw = seq![':', ' ', '"', '#'] + value + seq!['"'];
    let peel = margin(true);
    assert(peel(raw[0]) && peel(raw[1]) && peel(raw[2]) && !peel(raw[3]));
    lemma_without_prefix(raw, peel, 3);
    let marked = seq!['#'] + value + seq!['"'];
    assert(raw.skip(3) =~= marked);
    assert(marked.last() == '"');
    if value.len() > 0 {
        assert(marked[marked.len() - 2] == value.last());
    } else {
        assert(marked[marked.len() - 2] == '#');
    }
    assert forall|j: int| marked.len() - 1 <= j < marked.len() implies peel(
        #[trigger] marked[j],
    ) by {}
    lemma_without_suffix(marked, peel, marked.len() - 1);
    assert(marked.take(marked.len() - 1) =~= seq!['#'] + value);
    lemma_without_leading_char(value, '#');
    lemma_without_absent_char(value, '\'');
}

/// An indented line `key: "#value"` with a tidy value has `key` as its key and
/// `value` as its value.
pub proof fn lemma_entry_value(indent: Seq<char>, key: Seq<char>, value: Seq<char>)
    requires
        forall|j: int| 0 <= j < indent.len() ==> blank(#[trigger] indent[j]),
        is_plain_key(key),
        indent.len() > 0 || key[0] != '#',
        is_tidy(value),
    ensures
        keyed_entry(indent + key + seq![':', ' ', '"', '#'] + value + seq!['"']) == Some(
            (key, value),
        ),
{
    let rest = seq![' ', '"', '#'] + value + seq!['"'];
    assert(rest.last() == '"');
    lemma_entry_tight(indent, key, rest);
    lemma_clean_quoted(value);
    assert(seq![':'] + rest =~= seq![':', ' ', '"', '#'] + value + seq!['"']);
    assert(indent + key + seq![':'] + rest =~= indent + key + seq![':', ' ', '"', '#'] + value
        + seq!['"']);
}

/// The names of the ANSI order are plain keys, and none of them names a slot
/// outright or opens a section: each stands for a color of the palette.
pub proof fn lemma_ansi_names_are_leaf_keys(place: nat)
    requires
        place < 8,
    ensures
        is_plain_key(ansi_name(place)),
        ansi_name(place)[0] != '#',
        named_slot(ansi_name(place)) is None,
        !is_header(ansi_name(place)),
        is_one_line(ansi_name(place)),
{
    reveal_strlit("black");
    reveal_strlit("red");
    reveal_strlit("green");
    reveal_strlit("yellow");
    reveal_strlit("blue");
    reveal_strlit("magenta");
    reveal_strlit("cyan");
    reveal_strlit("white");
    reveal_strlit("background");
    reveal_strlit("foreground");
    reveal_strlit("cursor");
    reveal_strlit("text");
    reveal_strlit("color");
    reveal_strlit("primary");
    reveal_strlit("normal");
    reveal_strlit("bright");
    let key = ansi_name(place);
    assert(key.len() <= 7);
    assert("background"@.len() == 10 && "foreground"@.len() == 10);
    assert("cursor"@[1] == 'u' && "text"@[0] == 't');
    assert(key[0] != 't' && key[1] != 'u');
    let headers = seq!["color"@, "primary"@, "cursor"@, "normal"@, "bright"@];
    assert forall|h: int| 0 <= h < 5 implies !begins_with(key, #[trigger] headers[h]) by {
        let head = headers[h];
        if head.len() <= key.len() {
            let start = key.subrange(0, head.len() as int);
            assert(start[0] == key[0]);
            assert(start[1] == key[1]);
            assert(start[2] == key[2]);
        }
    }
    assert(headers[0] == "color"@ && headers[1] == "primary"@ && headers[2] == "cursor"@
        && headers[3] == "normal"@ && headers[4] == "bright"@);
}

/// The line `    key: "#value"`.
pub open spec fn quoted_entry(key: Seq<char>, value: Seq<char>) -> Seq<char> {
    seq![' ', ' ', ' ', ' '] + key + seq![':', ' ', '"', '#'] + value + seq!['"']
}

/// What a theme file holds for a slot: its value, or the fallback where the
/// model does not have it.
pub open spec fn value_or(
    colors: Map<Seq<char>, Seq<char>>,
    key: Seq<char>,
    fallback: Seq<char>,
) -> Seq<char> {
    if colors.contains_key(key) {
        colors[key]
    } else {
        fallback
    }
}

/// The lines of the Alacritty theme file of a complete model, by their number.
pub open spec fn alacritty_line(k: int, colors: Map<Seq<char>, Seq<char>>, name: Seq<char>) -> Seq<
    char,
> {
    if k == 0 {
        seq!['#', ' '] + name
    } else if k == 2 {
        "colors:"@
    } else if k == 3 {
        "  primary:"@
    } else if k == 4 {
        quoted_entry("background"@, colors["background"@])
    } else if k == 5 {
        quoted_entry("foreground"@, colors["foreground"@])
    } else if k == 7 {
        "  cursor: "@
    } else if k == 8 {
        quoted_entry("text"@, value_or(colors, "cursor_fg"@, DEFAULT_CURSOR_TEXT@))
    } else if k == 9 {
        quoted_entry("cursor"@, value_or(colors, "cursor"@, DEFAULT_CURSOR@))
    } else if k == 11 {
        "  normal:"@
    } else if 12 <= k < 20 {
        quoted_entry(ansi_name((k - 12) as nat), colors[color_key((k - 12) as nat)])
    } else if k == 21 {
        "  bright:"@
    } else if 22 <= k < 30 {
        quoted_entry(ansi_name((k - 22) as nat), colors[color_key((k - 14) as nat)])
    } else {
        Seq::empty()
    }
}

/// The lines of the Alacritty theme file of a complete model.
pub open spec fn alacritty_lines_of(colors: Map<Seq<char>, Seq<char>>, name: Seq<char>) -> Seq<
    Seq<char>,
> {
    Seq::new(30, |k: int| alacritty_line(k, colors, name))
}

/// The palette index that the line with number `k` holds a color for, if it
/// holds one.
pub open spec fn palette_index(k: int) -> Option<nat> {
    if 12 <= k < 20 {
        Some((k - 12) as nat)
    } else if 22 <= k < 30 {
        Some((k - 14) as nat)
    } else {
        None
    }
}

/// Whether the palette of a model can be written and read again: its sixteen
/// colors are tidy.
pub open spec fn has_tidy_palette(colors: Map<Seq<char>, Seq<char>>) -> bool {
    forall|i: nat| i < 16 ==> is_tidy(#[trigger] colors[color_key(i)])
}

/// In the Alacritty theme file of a model with a tidy palette, the lines of the
/// tables `normal` and `bright` are leaves, each with the color of its palette
/// index as its value, and no other line is a leaf.
pub proof fn lemma_alacritty_line_kinds(colors: Map<Seq<char>, Seq<char>>, name: Seq<char>, k: int)
    requires
        0 <= k < 30,
        has_tidy_palette(colors),
    ensures
        is_leaf(alacritty_line(k, colors, name)) <==> palette_index(k) is Some,
        palette_index(k) matches Some(i) ==> leaf_value(alacritty_line(k, colors, name))
            == colors[color_key(i)],
{
    let line = alacritty_line(k, colors, name);
    let indent = seq![' ', ' ', ' ', ' '];
    let empty = Seq::<char>::empty();
    if k == 0 {
        assert(line[0] == '#');
    } else if k == 2 {
        reveal_strlit("colors:");
        reveal_strlit("colors");
        reveal_strlit("color");
        assert(line =~= empty + "colors"@ + seq![':'] + empty);
        lemma_entry_key(empty, "colors"@, empty);
        assert("colors"@.subrange(0, 5) =~= "color"@);
    } else if k == 3 {
        reveal_strlit("  primary:");
        reveal_strlit("primary");
        assert(line =~= seq![' ', ' '] + "primary"@ + seq![':'] + empty);
        lemma_entry_key(seq![' ', ' '], "primary"@, empty);
        assert("primary"@.subrange(0, 7) =~= "primary"@);
    } else if k == 4 {
        reveal_strlit("background");
        let rest = seq![' ', '"', '#'] + colors["background"@] + seq!['"'];
        assert(line =~= indent + "background"@ + seq![':'] + rest);
        lemma_entry_key(indent, "background"@, rest);
    } else if k == 5 {
        reveal_strlit("foreground");
        let rest = seq![' ', '"', '#'] + colors["foreground"@] + seq!['"'];
        assert(line =~= indent + "foreground"@ + seq![':'] + rest);
        lemma_entry_key(indent, "foreground"@, rest);
    } else if k == 7 {
        reveal_strlit("  cursor: ");
        reveal_strlit("cursor");
        assert(line =~= seq![' ', ' '] + "cursor"@ + seq![':'] + seq![' ']);
        lemma_entry_key(seq![' ', ' '], "cursor"@, seq![' ']);
    } else if k == 8 {
        reveal_strlit("text");
        let rest = seq![' ', '"', '#'] + value_or(colors, "cursor_fg"@, DEFAULT_CURSOR_TEXT@)
            + seq!['"'];
        assert(line =~= indent + "text"@ + seq![':'] + rest);
        lemma_entry_key(indent, "text"@, rest);
    } else if k == 9 {
        reveal_strlit("cursor");
        let rest = seq![' ', '"', '#'] + value_or(colors, "cursor"@, DEFAULT_CURSOR@) + seq!['"'];
        assert(line =~= indent + "cursor"@ + seq![':'] + rest);
        lemma_entry_key(indent, "cursor"@, rest);
    } else if k == 11 {
        reveal_strlit("  normal:");
        reveal_strlit("normal");
        assert(line =~= seq![' ', ' '] + "normal"@ + seq![':'] + empty);
        lemma_entry_key(seq![' ', ' '], "normal"@, empty);
        assert("normal"@.subrange(0, 6) =~= "normal"@);
    } else if k == 21 {
        reveal_strlit("  bright:");
        reveal_strlit("bright");
        assert(line =~= seq![' ', ' '] + "bright"@ + seq![':'] + empty);
        lemma_entry_key(seq![' ', ' '], "bright"@, empty);
        assert("bright"@.subrange(0, 6) =~= "bright"@);
    } else if palette_index(k) is Some {
        let i = palette_index(k)->0;
        let place = if k < 20 {
            (k - 12) as nat
        } else {
            (k - 22) as nat
        };
        assert(is_tidy(colors[color_key(i)]));
        lemma_ansi_names_are_leaf_keys(place);
        lemma_entry_value(indent, ansi_name(place), colors[color_key(i)]);
    } else {
        assert(line =~= empty);
        assert(trimmed(line) =~= empty);
    }
}

/// The number of leaves among the first `k` lines of an Alacritty theme file.
pub open spec fn leaves_before(k: int) -> nat {
    if k <= 12 {
        0
    } else if k <= 20 {
        (k - 12) as nat
    } else if k <= 22 {
        8
    } else {
        (k - 14) as nat
    }
}

/// The leaves among the first `k` lines of the Alacritty theme file of a model
/// with a tidy palette hold the first colors of its palette, in order.
pub proof fn lemma_alacritty_leaves(colors: Map<Seq<char>, Seq<char>>, name: Seq<char>, k: int)
    requires
        0 <= k <= 30,
        has_tidy_palette(colors),
    ensures
        leaf_values(alacritty_lines_of(colors, name).take(k)) == Seq::new(
            leaves_before(k),
            |i: int| colors[color_key(i as nat)],
        ),
    decreases k,
{
    let lines = alacritty_lines_of(colors, name);
    let found = leaf_values(lines.take(k));
    let wanted = Seq::new(leaves_before(k), |i: int| colors[color_key(i as nat)]);
    if k == 0 {
        assert(found =~= wanted);
    } else {
        lemma_alacritty_leaves(colors, name, k - 1);
        lemma_alacritty_line_kinds(colors, name, k - 1);
        assert(lines.take(k).drop_last() =~= lines.take(k - 1));
        assert(lines.take(k).last() == alacritty_line(k - 1, colors, name));
        assert(found =~= wanted);
    }
}

/// The lines of the Alacritty theme file of a model hold no line feed, as far
/// as the name of the theme and the values of the model hold none.
pub proof fn lemma_alacritty_lines_are_lines(
    colors: Map<Seq<char>, Seq<char>>,
    name: Seq<char>,
    k: int,
)
    requires
        0 <= k < 30,
        has_tidy_palette(colors),
        is_one_line(name),
        is_one_line(colors["background"@]),
        is_one_line(colors["foreground"@]),
        colors.contains_key("cursor"@) ==> is_one_line(colors["cursor"@]),
        colors.contains_key("cursor_fg"@) ==> is_one_line(colors["cursor_fg"@]),
    ensures
        is_one_line(alacritty_line(k, colors, name)),
{
    reveal_strlit("colors:");
    reveal_strlit("  primary:");
    reveal_strlit("  cursor: ");
    reveal_strlit("  normal:");
    reveal_strlit("  bright:");
    reveal_strlit("background");
    reveal_strlit("foreground");
    reveal_strlit("text");
    reveal_strlit("cursor");
    reveal_strlit("FFFFFF");
    reveal_strlit("000000");
    if palette_index(k) is Some {
        let i = palette_index(k)->0;
        let place = if k < 20 {
            (k - 12) as nat
        } else {
            (k - 22) as nat
        };
        assert(is_tidy(colors[color_key(i)]));
        lemma_ansi_names_are_leaf_keys(place);
    }
}

/// A line of one part is the text of that part.
pub proof fn lemma_filled_one(a: Part, colors: Map<Seq<char>, Seq<char>>, name: Seq<char>)
    requires
        part_text(a, colors, name) is Ok,
    ensures
        filled(seq![a], colors, name) == Ok::<_, RenderFailure>(part_text(a, colors, name)->Ok_0),
{
    let parts = seq![a];
    assert(parts.drop_last() =~= Seq::<Part>::empty());
    assert(filled(parts.drop_last(), colors, name) == Ok::<_, RenderFailure>(Seq::<char>::empty()));
    assert(Seq::<char>::empty() + part_text(a, colors, name)->Ok_0 =~= part_text(
        a,
        colors,
        name,
    )->Ok_0);
}

/// A line of two parts is the text of the first followed by that of the second.
pub proof fn lemma_filled_two(a: Part, b: Part, colors: Map<Seq<char>, Seq<char>>, name: Seq<char>)
    requires
        part_text(a, colors, name) is Ok,
        part_text(b, colors, name) is Ok,
    ensures
        filled(seq![a, b], colors, name) == Ok::<_, RenderFailure>(
            part_text(a, colors, name)->Ok_0 + part_text(b, colors, name)->Ok_0,
        ),
{
    lemma_filled_one(a, colors, name);
    assert(seq![a, b].drop_last() =~= seq![a]);
}

/// A line of three parts is their three texts, one after the other.
pub proof fn lemma_filled_three(
    a: Part,
    b: Part,
    c: Part,
    colors: Map<Seq<char>, Seq<char>>,
    name: Seq<char>,
)
    requires
        part_text(a, colors, name) is Ok,
        part_text(b, colors, name) is Ok,
        part_text(c, colors, name) is Ok,
    ensures
        filled(seq![a, b, c], colors, name) == Ok::<_, RenderFailure>(
            part_text(a, colors, name)->Ok_0 + part_text(b, colors, name)->Ok_0 + part_text(
                c,
                colors,
                name,
            )->Ok_0,
        ),
{
    lemma_filled_two(a, b, colors, name);
    assert(seq![a, b, c].drop_last() =~= seq![a, b]);
}

/// Lines that can each be written are written as their texts, joined.
pub proof fn lemma_filled_lines_joined(
    lines: Seq<Seq<Part>>,
    texts: Seq<Seq<char>>,
    colors: Map<Seq<char>, Seq<char>>,
    name: Seq<char>,
)
    requires
        lines.len() == texts.len(),
        forall|i: int|
            0 <= i < lines.len() ==> filled(#[trigger] lines[i], colors, name) == Ok::<
                _,
                RenderFailure,
            >(texts[i]),
    ensures
        filled_lines(lines, colors, name) == Ok::<_, RenderFailure>(joined(texts)),
    decreases lines.len(),
{
    if lines.len() > 0 {
        let before = lines.drop_last();
        assert forall|i: int| 0 <= i < before.len() implies filled(
            #[trigger] before[i],
            colors,
            name,
        ) == Ok::<_, RenderFailure>(texts.drop_last()[i]) by {
            assert(before[i] == lines[i]);
        }
        lemma_filled_lines_joined(before, texts.drop_last(), colors, name);
        assert(filled(lines.last(), colors, name) == Ok::<_, RenderFailure>(texts.last())) by {
            assert(lines.last() == lines[lines.len() - 1]);
        }
    }
}

/// The text with which a line `    key: "#` starts, for the key at a place of
/// the ANSI order.
pub open spec fn ansi_opening(place: nat) -> Seq<char>
    recommends
        place < 8,
{
    if place == 0 {
        "    black: \"#"@
    } else if place == 1 {
        "    red: \"#"@
    } else if place == 2 {
        "    green: \"#"@
    } else if place == 3 {
        "    yellow: \"#"@
    } else if place == 4 {
        "    blue: \"#"@
    } else if place == 5 {
        "    magenta: \"#"@
    } else if place == 6 {
        "    cyan: \"#"@
    } else {
        "    white: \"#"@
    }
}

/// A value between an opening and a closing quote is a quoted entry.
pub proof fn lemma_quoted(opening: Seq<char>, key: Seq<char>, value: Seq<char>)
    requires
        opening == seq![' ', ' ', ' ', ' '] + key + seq![':', ' ', '"', '#'],
    ensures
        opening + value + "\""@ == quoted_entry(key, value),
{
    reveal_strlit("\"");
    assert("\""@ =~= seq!['"']);
}

/// The openings of the color lines are the names of the ANSI order, indented
/// and followed by `: "#`.
pub proof fn lemma_ansi_openings(place: nat)
    requires
        place < 8,
    ensures
        ansi_opening(place) == seq![' ', ' ', ' ', ' '] + ansi_name(place) + seq![
            ':',
            ' ',
            '"',
            '#',
        ],
{
    reveal_strlit("    black: \"#");
    reveal_strlit("    red: \"#");
    reveal_strlit("    green: \"#");
    reveal_strlit("    yellow: \"#");
    reveal_strlit("    blue: \"#");
    reveal_strlit("    magenta: \"#");
    reveal_strlit("    cyan: \"#");
    reveal_strlit("    white: \"#");
    reveal_strlit("black");
    reveal_strlit("red");
    reveal_strlit("green");
    reveal_strlit("yellow");
    reveal_strlit("blue");
    reveal_strlit("magenta");
    reveal_strlit("cyan");
    reveal_strlit("white");
    assert(ansi_opening(place) =~= seq![' ', ' ', ' ', ' '] + ansi_name(place) + seq![
        ':',
        ' ',
        '"',
        '#',
    ]);
}

/// The text of the line with number `i` of the Alacritty template: the first
/// and the last line are empty, the second is the indented comment, and the
/// others are the lines of the theme file.
pub open spec fn alacritty_text(i: int, colors: Map<Seq<char>, Seq<char>>, name: Seq<char>) -> Seq<
    char,
> {
    if i == 1 {
        seq![' ', ' ', ' ', ' ', ' ', ' ', ' ', ' '] + alacritty_line(0, colors, name)
    } else if 2 <= i <= 30 {
        alacritty_line(i - 1, colors, name)
    } else {
        Seq::empty()
    }
}

/// The lines of the Alacritty template that hold a color of the palette are
/// written as quoted entries under the names of the ANSI order.
pub proof fn lemma_alacritty_palette_lines(
    colors: Map<Seq<char>, Seq<char>>,
    name: Seq<char>,
    i: int,
)
    requires
        palette_index(i - 1) is Some,
        is_complete(colors),
    ensures
        filled(alacritty_template()[i], colors, name) == Ok::<_, RenderFailure>(
            alacritty_text(i, colors, name),
        ),
{
    let index = palette_index(i - 1)->0;
    let place = if i < 21 {
        (i - 13) as nat
    } else {
        (i - 23) as nat
    };
    let line = alacritty_template()[i];
    assert(line.len() == 3);
    assert(line =~= seq![line[0], line[1], line[2]]);
    assert(line[0] matches Part::Fixed(text) && text@ == ansi_opening(place));
    assert(line[1] matches Part::Palette(n) && n == index);
    assert(line[2] matches Part::Fixed(text) && text@ == "\""@);
    assert(colors.contains_key(color_key(index)));
    lemma_filled_three(line[0], line[1], line[2], colors, name);
    lemma_ansi_openings(place);
    lemma_quoted(ansi_opening(place), ansi_name(place), colors[color_key(index)]);
}

/// The other lines of the Alacritty template are written as the comment, the
/// headers and the named entries of the theme file.
pub proof fn lemma_alacritty_other_lines(
    colors: Map<Seq<char>, Seq<char>>,
    name: Seq<char>,
    i: int,
)
    requires
        0 <= i < 32,
        palette_index(i - 1) is None,
        is_complete(colors),
    ensures
        filled(alacritty_template()[i], colors, name) == Ok::<_, RenderFailure>(
            alacritty_text(i, colors, name),
        ),
{
    let line = alacritty_template()[i];
    let wanted = alacritty_text(i, colors, name);
    let indent = seq![' ', ' ', ' ', ' '];
    let opening = seq![':', ' ', '"', '#'];
    if i == 1 {
        reveal_strlit("        # ");
        assert(line =~= seq![line[0], line[1]]);
        lemma_filled_two(line[0], line[1], colors, name);
        assert("        # "@ + name =~= wanted);
    } else if i == 3 || i == 4 || i == 8 || i == 12 || i == 22 {
        assert(line =~= seq![line[0]]);
        lemma_filled_one(line[0], colors, name);
    } else if i == 5 {
        reveal_strlit("    background: \"#");
        reveal_strlit("background");
        assert(line =~= seq![line[0], line[1], line[2]]);
        lemma_filled_three(line[0], line[1], line[2], colors, name);
        assert("    background: \"#"@ =~= indent + "background"@ + opening);
        lemma_quoted("    background: \"#"@, "background"@, colors["background"@]);
    } else if i == 6 {
        reveal_strlit("    foreground: \"#");
        reveal_strlit("foreground");
        assert(line =~= seq![line[0], line[1], line[2]]);
        lemma_filled_three(line[0], line[1], line[2], colors, name);
        assert("    foreground: \"#"@ =~= indent + "foreground"@ + opening);
        lemma_quoted("    foreground: \"#"@, "foreground"@, colors["foreground"@]);
    } else if i == 9 {
        reveal_strlit("    text: \"#");
        reveal_strlit("text");
        assert(line =~= seq![line[0], line[1], line[2]]);
        lemma_filled_three(line[0], line[1], line[2], colors, name);
        assert("    text: \"#"@ =~= indent + "text"@ + opening);
        lemma_quoted(
            "    text: \"#"@,
            "text"@,
            value_or(colors, "cursor_fg"@, DEFAULT_CURSOR_TEXT@),
        );
    } else if i == 10 {
        reveal_strlit("    cursor: \"#");
        reveal_strlit("cursor");
        assert(line =~= seq![line[0], line[1], line[2]]);
        lemma_filled_three(line[0], line[1], line[2], colors, name);
        assert("    cursor: \"#"@ =~= indent + "cursor"@ + opening);
        lemma_quoted("    cursor: \"#"@, "cursor"@, value_or(colors, "cursor"@, DEFAULT_CURSOR@));
    } else {
        assert(line =~= Seq::<Part>::empty());
    }
}

/// Whether a model can be written as an Alacritty theme and its palette read
/// again: it is complete, its palette is tidy, and neither the name of the
/// theme nor the other values that are written hold a line feed.
pub open spec fn reads_back(colors: Map<Seq<char>, Seq<char>>, name: Seq<char>) -> bool {
    &&& is_complete(colors)
    &&& has_tidy_palette(colors)
    &&& is_one_line(name)
    &&& is_one_line(colors["background"@])
    &&& is_one_line(colors["foreground"@])
    &&& colors.contains_key("cursor"@) ==> is_one_line(colors["cursor"@])
    &&& colors.contains_key("cursor_fg"@) ==> is_one_line(colors["cursor_fg"@])
}

/// The texts of the lines of the Alacritty template.
pub open spec fn alacritty_texts(colors: Map<Seq<char>, Seq<char>>, name: Seq<char>) -> Seq<
    Seq<char>,
> {
    Seq::new(32, |i: int| alacritty_text(i, colors, name))
}

/// The Alacritty template is written, for a complete model, as the texts of its
/// lines, joined.
pub proof fn lemma_alacritty_template_filled(colors: Map<Seq<char>, Seq<char>>, name: Seq<char>)
    requires
        is_complete(colors),
    ensures
        filled_lines(alacritty_template(), colors, name) == Ok::<_, RenderFailure>(
            joined(alacritty_texts(colors, name)),
        ),
{
    let template = alacritty_template();
    let texts = alacritty_texts(colors, name);
    assert forall|i: int| 0 <= i < template.len() implies filled(
        #[trigger] template[i],
        colors,
        name,
    ) == Ok::<_, RenderFailure>(texts[i]) by {
        if palette_index(i - 1) is Some {
            lemma_alacritty_palette_lines(colors, name, i);
        } else {
            lemma_alacritty_other_lines(colors, name, i);
        }
    }
    lemma_filled_lines_joined(template, texts, colors, name);
}

/// The text of the Alacritty template is the text of the theme file, with a
/// line feed and eight spaces before it and a line feed behind it.
pub proof fn lemma_alacritty_texts_joined(colors: Map<Seq<char>, Seq<char>>, name: Seq<char>)
    ensures
        joined(alacritty_texts(colors, name)) == seq![
            '\n',
            ' ',
            ' ',
            ' ',
            ' ',
            ' ',
            ' ',
            ' ',
            ' ',
        ] + joined(alacritty_lines_of(colors, name)) + seq!['\n'],
{
    let texts = alacritty_texts(colors, name);
    let lines = alacritty_lines_of(colors, name);
    let indent = seq![' ', ' ', ' ', ' ', ' ', ' ', ' ', ' '];
    let inner = texts.drop_last();
    let middle = inner.skip(1);
    assert(joined(texts) == joined(inner) + seq!['\n'] + texts.last());
    lemma_joined_front(inner);
    assert(joined(inner) == inner[0] + seq!['\n'] + joined(middle));
    lemma_joined_front(middle);
    lemma_joined_front(lines);
    assert(middle.skip(1) =~= lines.skip(1));
    assert(middle[0] == indent + lines[0]);
    assert(joined(middle) =~= indent + joined(lines));
    assert(texts.last() =~= Seq::<char>::empty());
    assert(inner[0] =~= Seq::<char>::empty());
    assert(joined(texts) =~= seq!['\n', ' ', ' ', ' ', ' ', ' ', ' ', ' ', ' '] + joined(lines)
        + seq!['\n']);
}

/// The Alacritty theme file of such a model is made of the lines
/// `alacritty_lines_of`.
pub proof fn lemma_alacritty_contents(
    colors: Map<Seq<char>, Seq<char>>,
    folder: Seq<char>,
    name: Seq<char>,
)
    requires
        is_complete(colors),
    ensures
        rendered(Target::Alacritty, colors, folder, name) matches Ok(file) && file.contents
            == joined(alacritty_lines_of(colors, name)),
{
    let lines = alacritty_lines_of(colors, name);
    lemma_alacritty_template_filled(colors, name);
    lemma_alacritty_texts_joined(colors, name);
    let core = joined(lines);
    lemma_joined_front(lines);
    assert(core[0] == '#') by {
        assert(lines[0][0] == '#');
    }
    assert(core.last() == '"') by {
        assert(lines.last() == alacritty_line(29, colors, name));
        assert(lines.last().last() == '"');
    }
    lemma_trimmed_padded(seq!['\n', ' ', ' ', ' ', ' ', ' ', ' ', ' ', ' '], core, seq!['\n']);
}

/// Writing and reading keep the palette. The Alacritty theme file of a model,
/// read again as `key: value` lines, gives every one of the sixteen colors of
/// the palette the value that it has in the model.
pub proof fn lemma_alacritty_palette_reads_back(
    colors: Map<Seq<char>, Seq<char>>,
    folder: Seq<char>,
    name: Seq<char>,
    i: nat,
)
    requires
        reads_back(colors, name),
        i < 16,
    ensures
        rendered(Target::Alacritty, colors, folder, name) matches Ok(file) && keyed_colors(
            file.contents,
        ).contains_key(color_key(i)) && keyed_colors(file.contents)[color_key(i)]
            == colors[color_key(i)],
{
    let lines = alacritty_lines_of(colors, name);
    lemma_alacritty_contents(colors, folder, name);
    assert forall|k: int| 0 <= k < lines.len() implies is_one_line(#[trigger] lines[k]) by {
        lemma_alacritty_lines_are_lines(colors, name, k);
    }
    lemma_lines_of_joined(lines);
    lemma_alacritty_leaves(colors, name, 30);
    assert(lines.take(30) =~= lines);
    lemma_palette_follows_file_order(lines);
    assert(leaf_values(lines)[i as int] == colors[color_key(i)]);
}

} // verus!
