//! What holds of the readers and writers as a whole, beyond what each function
//! promises for itself.

use crate::text::{
    decimal, lemma_decimal_injective, lemma_decimal_value, lines_of, without_char,
};
use crate::theme_creator::{
    alacritty_template, filled, filled_lines, foot_template, kitty_template, part_text, rendered,
    Part, Target, DEFAULT_CURSOR, DEFAULT_CURSOR_TEXT,
};
use crate::theme_parser::{
    ansi_name, ansi_position, canonical_key, color_key, directive_line_step, directive_name,
    directive_value, directives_fold, is_alias, is_directive, is_header, keyed_colors,
    keyed_entry, keyed_fold, keyed_step, leaf_step, leaves_fold, lemma_directives_fold_fails,
    named_slot, Keyed, LeavesView, ParseFailure, Section,
};
use vstd::prelude::*;

verus! {

/// Whether a line of directives fills `slot`.
pub open spec fn fills(line: Seq<char>, slot: Seq<char>) -> bool {
    is_directive(line) && canonical_key(directive_name(line)) == slot
}

/// A slot that the lines have filled stays filled, and a filled slot was filled
/// by one of the lines.
pub proof fn lemma_filled_slots(lines: Seq<Seq<char>>, slot: Seq<char>)
    requires
        directives_fold(lines) is Ok,
    ensures
        directives_fold(lines)->Ok_0.contains_key(slot) <==> exists|j: int|
            0 <= j < lines.len() && fills(#[trigger] lines[j], slot),
    decreases lines.len(),
{
    if lines.len() > 0 {
        let before = lines.drop_last();
        lemma_filled_slots(before, slot);
        if exists|j: int| 0 <= j < before.len() && fills(#[trigger] before[j], slot) {
            let j = choose|j: int| 0 <= j < before.len() && fills(#[trigger] before[j], slot);
            assert(fills(lines[j], slot));
        }
        if exists|j: int| 0 <= j < lines.len() && fills(#[trigger] lines[j], slot) {
            let j = choose|j: int| 0 <= j < lines.len() && fills(#[trigger] lines[j], slot);
            if j < before.len() {
                assert(fills(before[j], slot));
            }
        }
    }
}

/// An alias takes the value of the slot that it names. Where the lines before an
/// alias can be read, and one of them fills the slot that the alias names, the
/// alias is read too, and gives its own slot the value that the named slot holds
/// after those lines.
pub proof fn lemma_alias_takes_stored_value(lines: Seq<Seq<char>>, k: int)
    requires
        0 <= k < lines.len(),
        is_alias(lines[k]),
        directives_fold(lines.take(k)) is Ok,
        exists|j: int|
            0 <= j < k && fills(#[trigger] lines[j], canonical_key(directive_value(lines[k]))),
    ensures
        ({
            let before = directives_fold(lines.take(k))->Ok_0;
            let named = canonical_key(directive_value(lines[k]));
            let own = canonical_key(directive_name(lines[k]));
            &&& before.contains_key(named)
            &&& directives_fold(lines.take(k + 1)) == Ok::<_, ParseFailure>(
                before.insert(own, before[named]),
            )
            &&& directives_fold(lines.take(k + 1))->Ok_0[own] == before[named]
        }),
{
    let named = canonical_key(directive_value(lines[k]));
    let j = choose|j: int| 0 <= j < k && fills(#[trigger] lines[j], named);
    assert(lines.take(k)[j] == lines[j]);
    lemma_filled_slots(lines.take(k), named);
    assert(lines.take(k + 1).drop_last() =~= lines.take(k));
}

/// An alias to a slot that no earlier line fills makes the reading fail,
/// whatever follows it.
pub proof fn lemma_forward_alias_fails(lines: Seq<Seq<char>>, k: int)
    requires
        0 <= k < lines.len(),
        is_alias(lines[k]),
        forall|j: int|
            0 <= j < k ==> !fills(#[trigger] lines[j], canonical_key(directive_value(lines[k]))),
    ensures
        directives_fold(lines) is Err,
        directives_fold(lines.take(k)) is Ok ==> directives_fold(lines) == Err::<
            Map<Seq<char>, Seq<char>>,
            _,
        >(
            ParseFailure::UnresolvedAlias {
                alias: directive_name(lines[k]),
                target: directive_value(lines[k]),
            },
        ),
{
    let named = canonical_key(directive_value(lines[k]));
    if directives_fold(lines.take(k)) is Ok {
        lemma_filled_slots(lines.take(k), named);
        if exists|j: int| 0 <= j < k && fills(#[trigger] lines.take(k)[j], named) {
            let j = choose|j: int| 0 <= j < k && fills(#[trigger] lines.take(k)[j], named);
            assert(fills(lines[j], named));
        }
        assert(lines.take(k + 1).drop_last() =~= lines.take(k));
        lemma_directives_fold_fails(lines, k + 1);
    } else {
        lemma_directives_fold_fails(lines, k);
    }
}

/// Two palette slots have the same name only if they have the same index.
pub proof fn lemma_color_key_injective(a: nat, b: nat)
    requires
        color_key(a) == color_key(b),
    ensures
        a == b,
{
    let head = "color"@;
    assert(color_key(a).skip(head.len() as int) =~= decimal(a));
    assert(color_key(b).skip(head.len() as int) =~= decimal(b));
    lemma_decimal_injective(a, b);
}

/// No palette slot goes by the name of `background`, `foreground`, `cursor` or
/// `cursor_fg`.
pub proof fn lemma_color_key_is_no_named_slot(n: nat)
    ensures
        color_key(n) != "background"@,
        color_key(n) != "foreground"@,
        color_key(n) != "cursor"@,
        color_key(n) != "cursor_fg"@,
{
    reveal_strlit("color");
    reveal_strlit("background");
    reveal_strlit("foreground");
    reveal_strlit("cursor");
    reveal_strlit("cursor_fg");
    lemma_decimal_value(n);
    let key = color_key(n);
    assert(key[0] == 'c');
    assert(key[1] == 'o');
    assert("background"@[0] == 'b');
    assert("foreground"@[0] == 'f');
    assert("cursor"@[1] == 'u');
    assert("cursor_fg"@[1] == 'u');
}

/// Whether a `key: value` line is a leaf: it has a key that neither names a
/// slot outright nor opens a section, and so holds one color of the palette.
pub open spec fn is_leaf(line: Seq<char>) -> bool {
    match keyed_entry(line) {
        Some((key, _)) => named_slot(key) is None && !is_header(key),
        None => false,
    }
}

/// The value of a leaf.
pub open spec fn leaf_value(line: Seq<char>) -> Seq<char> {
    match keyed_entry(line) {
        Some((_, value)) => value,
        None => Seq::empty(),
    }
}

/// The values of the leaves among `lines`, in the order of the lines.
pub open spec fn leaf_values(lines: Seq<Seq<char>>) -> Seq<Seq<char>>
    decreases lines.len(),
{
    if lines.len() == 0 {
        Seq::empty()
    } else if is_leaf(lines.last()) {
        leaf_values(lines.drop_last()).push(leaf_value(lines.last()))
    } else {
        leaf_values(lines.drop_last())
    }
}

/// The palette follows the order of the file. Whatever else the lines hold, the
/// value of the first leaf is stored as `color0`, that of the second as
/// `color1`, and so on; and the next leaf would get the index that follows.
pub proof fn lemma_palette_follows_file_order(lines: Seq<Seq<char>>)
    ensures
        keyed_fold(lines).next == leaf_values(lines).len(),
        forall|i: nat|
            i < leaf_values(lines).len() ==> {
                &&& keyed_fold(lines).colors.contains_key(#[trigger] color_key(i))
                &&& keyed_fold(lines).colors[color_key(i)] == leaf_values(lines)[i as int]
            },
    decreases lines.len(),
{
    if lines.len() > 0 {
        let before = keyed_fold(lines.drop_last());
        let values = leaf_values(lines.drop_last());
        lemma_palette_follows_file_order(lines.drop_last());
        assert(keyed_fold(lines) == keyed_step(before, lines.last()));
        assert forall|i: nat| i < leaf_values(lines).len() implies {
            &&& keyed_fold(lines).colors.contains_key(#[trigger] color_key(i))
            &&& keyed_fold(lines).colors[color_key(i)] == leaf_values(lines)[i as int]
        } by {
            lemma_color_key_is_no_named_slot(i);
            if i < values.len() {
                assert(before.colors.contains_key(color_key(i)));
                if color_key(i) == color_key(before.next) {
                    lemma_color_key_injective(i, before.next);
                }
            }
        }
    }
}

/// The palette of a `key: value` theme follows the order of its lines: the
/// value of its first leaf is `color0`, that of its second `color1`, and so on.
pub proof fn lemma_keyed_colors_follow_file_order(text: Seq<char>, i: nat)
    requires
        i < leaf_values(lines_of(text)).len(),
    ensures
        keyed_colors(text).contains_key(color_key(i)),
        keyed_colors(text)[color_key(i)] == leaf_values(lines_of(text))[i as int],
{
    lemma_palette_follows_file_order(lines_of(text));
}

/// Each name of the ANSI order has its place, and fills the palette slot of
/// that place in the table `normal` and the slot eight further on in the table
/// `bright`.
pub proof fn lemma_ansi_names_have_their_place(place: nat)
    requires
        place < 8,
    ensures
        ansi_position(ansi_name(place)) == Some(place),
        Section::Normal.slot_for(ansi_name(place)) == Some(color_key(place)),
        Section::Bright.slot_for(ansi_name(place)) == Some(color_key(place + 8)),
{
    reveal_strlit("black");
    reveal_strlit("red");
    reveal_strlit("green");
    reveal_strlit("yellow");
    reveal_strlit("blue");
    reveal_strlit("magenta");
    reveal_strlit("cyan");
    reveal_strlit("white");
    let name = ansi_name(place);
    assert("black"@[2] == 'a' && "red"@[2] == 'd' && "green"@[2] == 'e' && "yellow"@[2] == 'l'
        && "blue"@[2] == 'u' && "magenta"@[2] == 'g' && "cyan"@[2] == 'a' && "white"@[2] == 'i');
    assert("black"@.len() == 5 && "cyan"@.len() == 4);
}

/// A table is read by its keys, not by their order. An entry whose key fills a
/// slot, and which is the last entry of its table to fill that slot, gives the
/// slot its value, without the `#`: so every color that a table names is stored
/// under the palette index of its name, wherever in the table it stands.
pub proof fn lemma_table_entry_fills_its_slot(
    colors: Map<Seq<char>, Seq<char>>,
    section: Section,
    leaves: LeavesView,
    k: int,
)
    requires
        0 <= k < leaves.len(),
        leaves_fold(colors, section, leaves) is Ok,
        section.slot_for(leaves[k].0) is Some,
        forall|j: int|
            k < j < leaves.len() ==> section.slot_for(#[trigger] leaves[j].0) != section.slot_for(
                leaves[k].0,
            ),
    ensures
        leaves[k].1 is Some,
        leaves_fold(colors, section, leaves)->Ok_0.contains_key(section.slot_for(leaves[k].0)->0),
        leaves_fold(colors, section, leaves)->Ok_0[section.slot_for(leaves[k].0)->0]
            == without_char(leaves[k].1->0, '#'),
    decreases leaves.len(),
{
    let before = leaves.drop_last();
    if k < leaves.len() - 1 {
        assert(before[k] == leaves[k]);
        assert forall|j: int| k < j < before.len() implies section.slot_for(
            #[trigger] before[j].0,
        ) != section.slot_for(before[k].0) by {
            assert(before[j] == leaves[j]);
        }
        lemma_table_entry_fills_its_slot(colors, section, before, k);
        assert(section.slot_for(leaves.last().0) != section.slot_for(leaves[k].0)) by {
            assert(leaves.last() == leaves[leaves.len() - 1]);
        }
    }
}

/// The text under the cursor has one slot, `cursor_fg`, whatever the source
/// calls it: a directive `cursor_text_color`, a line `text: ..`, and the key
/// `text` of the table `cursor` all fill `cursor_fg`, and none of them fills a
/// slot of its own name.
pub proof fn lemma_cursor_text_fills_cursor_fg(
    colors: Map<Seq<char>, Seq<char>>,
    next: nat,
    line: Seq<char>,
    value: Seq<char>,
)
    ensures
        is_directive(line) && directive_name(line) == "cursor_text_color"@ ==> (
        directive_line_step(colors, line) matches Ok(after) ==> after.contains_key("cursor_fg"@)
            && after.dom() == colors.dom().insert("cursor_fg"@)),
        keyed_entry(line) == Some(("text"@, value)) ==> keyed_step(Keyed { colors, next }, line)
            == (Keyed { colors: colors.insert("cursor_fg"@, value), next }),
        leaf_step(colors, Section::Cursor, ("text"@, Some(value))) == Ok::<_, ParseFailure>(
            colors.insert("cursor_fg"@, without_char(value, '#')),
        ),
{
    reveal_strlit("text");
    reveal_strlit("background");
    reveal_strlit("foreground");
    reveal_strlit("cursor");
    assert("text"@.len() == 4);
    assert("cursor"@.len() == 6);
    assert("background"@.len() == 10);
    assert("foreground"@.len() == 10);
    if is_directive(line) && directive_name(line) == "cursor_text_color"@ {
        if directive_line_step(colors, line) is Ok {
            let after = directive_line_step(colors, line)->Ok_0;
            assert(after.dom() =~= colors.dom().insert("cursor_fg"@));
        }
    }
}

/// Whether a part can be written for every model that has the slots
/// `background`, `foreground` and `color0` to `color15`, and is written alike
/// whether the model lacks `cursor` and `cursor_fg` or holds their fallbacks.
pub open spec fn is_plain(part: Part) -> bool {
    match part {
        Part::Fixed(_) => true,
        Part::Name => true,
        Part::Slot(key) => key@ == "background"@ || key@ == "foreground"@,
        Part::Palette(index) => index < 16,
        Part::SlotOr(key, fallback) => (key@ == "cursor"@ && fallback@ == DEFAULT_CURSOR@) || (key@
            == "cursor_fg"@ && fallback@ == DEFAULT_CURSOR_TEXT@),
    }
}

/// The three templates are made of plain parts.
pub proof fn lemma_templates_are_plain(target: Target)
    ensures
        forall|i: int, j: int|
            0 <= i < target.template().len() && 0 <= j < target.template()[i].len() ==> is_plain(
                #[trigger] target.template()[i][j],
            ),
{
    match target {
        Target::Foot => {
            assert forall|i: int, j: int|
                0 <= i < foot_template().len() && 0 <= j
                    < foot_template()[i].len() implies is_plain(
                #[trigger] foot_template()[i][j],
            ) by {}
        },
        Target::Alacritty => {
            assert forall|i: int, j: int|
                0 <= i < alacritty_template().len() && 0 <= j
                    < alacritty_template()[i].len() implies is_plain(
                #[trigger] alacritty_template()[i][j],
            ) by {}
        },
        Target::Kitty => {
            assert forall|i: int, j: int|
                0 <= i < kitty_template().len() && 0 <= j
                    < kitty_template()[i].len() implies is_plain(
                #[trigger] kitty_template()[i][j],
            ) by {}
        },
    }
}

/// Whether a model has every slot that a theme file needs.
pub open spec fn is_complete(colors: Map<Seq<char>, Seq<char>>) -> bool {
    &&& colors.contains_key("background"@)
    &&& colors.contains_key("foreground"@)
    &&& forall|i: nat| i < 16 ==> colors.contains_key(#[trigger] color_key(i))
}

/// The model with the fallbacks stored for the cursor and the text under it.
pub open spec fn with_fallbacks(colors: Map<Seq<char>, Seq<char>>) -> Map<Seq<char>, Seq<char>> {
    colors.insert("cursor"@, DEFAULT_CURSOR@).insert("cursor_fg"@, DEFAULT_CURSOR_TEXT@)
}

/// Plain parts are written for every complete model, and alike for a model
/// without `cursor` and `cursor_fg` and for the same model with the fallbacks.
pub proof fn lemma_plain_parts(parts: Seq<Part>, colors: Map<Seq<char>, Seq<char>>, name: Seq<char>)
    requires
        forall|i: int| 0 <= i < parts.len() ==> is_plain(#[trigger] parts[i]),
    ensures
        is_complete(colors) ==> filled(parts, colors, name) is Ok,
        !colors.contains_key("cursor"@) && !colors.contains_key("cursor_fg"@) ==> filled(
            parts,
            colors,
            name,
        ) == filled(parts, with_fallbacks(colors), name),
    decreases parts.len(),
{
    if parts.len() > 0 {
        let before = parts.drop_last();
        assert forall|i: int| 0 <= i < before.len() implies is_plain(#[trigger] before[i]) by {
            assert(before[i] == parts[i]);
        }
        lemma_plain_parts(before, colors, name);
        let part = parts.last();
        assert(is_plain(part));
        reveal_strlit("background");
        reveal_strlit("foreground");
        reveal_strlit("cursor");
        reveal_strlit("cursor_fg");
        assert("background"@.len() == 10);
        assert("foreground"@.len() == 10);
        assert("cursor"@.len() == 6);
        assert("cursor_fg"@.len() == 9);
        if !colors.contains_key("cursor"@) && !colors.contains_key("cursor_fg"@) {
            match part {
                Part::Palette(index) => {
                    lemma_color_key_is_no_named_slot(index as nat);
                },
                _ => {},
            }
            assert(part_text(part, colors, name) == part_text(part, with_fallbacks(colors), name));
        }
    }
}

/// Lines of plain parts are written for every complete model, and alike for a
/// model without `cursor` and `cursor_fg` and for the same model with the
/// fallbacks.
pub proof fn lemma_plain_lines(
    lines: Seq<Seq<Part>>,
    colors: Map<Seq<char>, Seq<char>>,
    name: Seq<char>,
)
    requires
        forall|i: int, j: int|
            0 <= i < lines.len() && 0 <= j < lines[i].len() ==> is_plain(#[trigger] lines[i][j]),
    ensures
        is_complete(colors) ==> filled_lines(lines, colors, name) is Ok,
        !colors.contains_key("cursor"@) && !colors.contains_key("cursor_fg"@) ==> filled_lines(
            lines,
            colors,
            name,
        ) == filled_lines(lines, with_fallbacks(colors), name),
    decreases lines.len(),
{
    if lines.len() > 0 {
        let before = lines.drop_last();
        assert forall|i: int, j: int|
            0 <= i < before.len() && 0 <= j < before[i].len() implies is_plain(
            #[trigger] before[i][j],
        ) by {
            assert(before[i] == lines[i]);
        }
        lemma_plain_lines(before, colors, name);
        let line = lines.last();
        assert forall|j: int| 0 <= j < line.len() implies is_plain(#[trigger] line[j]) by {
            assert(line[j] == lines[lines.len() - 1][j]);
        }
        lemma_plain_parts(line, colors, name);
    }
}

/// A model that lacks `cursor` and `cursor_fg` can still be written: every
/// theme file takes `FFFFFF` for the cursor and `000000` for the text under it,
/// and comes out as it would for the same model with these two values stored.
/// A complete model is written without error.
pub proof fn lemma_missing_cursor_falls_back(
    target: Target,
    colors: Map<Seq<char>, Seq<char>>,
    folder: Seq<char>,
    theme_name: Seq<char>,
)
    ensures
        DEFAULT_CURSOR@ == "FFFFFF"@,
        DEFAULT_CURSOR_TEXT@ == "000000"@,
        is_complete(colors) ==> rendered(target, colors, folder, theme_name) is Ok,
        !colors.contains_key("cursor"@) && !colors.contains_key("cursor_fg"@) ==> rendered(
            target,
            colors,
            folder,
            theme_name,
        ) == rendered(target, with_fallbacks(colors), folder, theme_name),
{
    lemma_templates_are_plain(target);
    lemma_plain_lines(target.template(), colors, theme_name);
}

} // verus!
