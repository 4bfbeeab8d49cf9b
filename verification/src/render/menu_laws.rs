//! What holds of every menu: each row shows what its entry is.

use vstd::prelude::*;

use crate::render::bar::Size;
use crate::render::menu::{
    label_drawing, prepared_row, toggle_drawing, MenuCommand, MenuInk, MenuRow, MenuSelection,
    PreparedMenu, PreparedMenuEntry, TextInk,
};
use crate::tray::{ToggleState, ToggleType, TrayMenuEntry};

verus! {

/// What a command can be looked for as.
pub ghost enum Mark {
    /// The tick of a checkbox.
    Tick,
    /// The dot of a radio button, in the color of marks, at a scale.
    Dot(int),
    /// The bar of a toggle that is neither on nor off.
    Bar,
    /// The frame of a toggle, filled with the color of marks, at a scale.
    FilledFrame(int),
    /// The frame of a toggle in a faint color, at a scale.
    FaintFrame(int),
    /// What makes a frame hollow.
    Hole,
    /// An arrow, backwards or into a submenu.
    Arrow(bool),
    /// The background of the selected row.
    Hover,
    /// The text of the entry at a place.
    Text(int),
    /// The text of another entry than the one at a place.
    OtherText(int),
    /// The mark where a text is cut.
    Cut,
    /// A text, or the mark where it is cut, in a color.
    WrittenIn(TextInk),
    /// A mark in the color of what cannot be taken.
    Muted,
}

/// Whether a command is what is looked for.
pub open spec fn is_mark(command: MenuCommand, kind: Mark) -> bool {
    match command {
        MenuCommand::RowTick { .. } => kind is Tick,
        MenuCommand::RowRounded { area, ink, .. } => {
            let marking = ink == MenuInk::Accent || ink == MenuInk::Disabled;
            let faint = ink == MenuInk::HalfAccent || ink == MenuInk::HalfDisabled;
            match kind {
                Mark::Dot(scale) => marking && area.width == 6 * scale,
                Mark::FilledFrame(scale) => marking && area.width == 14 * scale,
                Mark::FaintFrame(scale) => faint && area.width == 14 * scale,
                Mark::Hole => ink == MenuInk::Background,
                Mark::Hover => ink == MenuInk::Hover,
                Mark::Muted => ink == MenuInk::Disabled || ink == MenuInk::HalfDisabled,
                _ => false,
            }
        },
        MenuCommand::RowFill { ink, .. } => kind is Bar || (kind is Muted && ink
            == MenuInk::Disabled),
        MenuCommand::RowChevron { back, ink, .. } => match kind {
            Mark::Arrow(backwards) => back == backwards,
            Mark::Muted => ink == MenuInk::Disabled,
            _ => false,
        },
        MenuCommand::RowText { entry, ink, .. } => match kind {
            Mark::Text(index) => entry == index,
            Mark::OtherText(index) => entry != index,
            Mark::WrittenIn(wanted) => ink == wanted,
            _ => false,
        },
        MenuCommand::RowEllipsis { ink, .. } => match kind {
            Mark::Cut => true,
            Mark::WrittenIn(wanted) => ink == wanted,
            _ => false,
        },
        _ => false,
    }
}

/// Whether one of some commands is of a kind.
pub open spec fn draws(commands: Seq<MenuCommand>, kind: Mark) -> bool {
    exists|i: int| 0 <= i < commands.len() && is_mark(#[trigger] commands[i], kind)
}

proof fn lemma_draws_join(
    a: Seq<MenuCommand>,
    b: Seq<MenuCommand>,
    kind: Mark,
)
    ensures
        draws(a + b, kind) == (draws(a, kind) || draws(b, kind)),
{
    if draws(a, kind) {
        let i = choose|i: int| 0 <= i < a.len() && is_mark(#[trigger] a[i], kind);
        assert((a + b)[i] == a[i]);
    }
    if draws(b, kind) {
        let i = choose|i: int| 0 <= i < b.len() && is_mark(#[trigger] b[i], kind);
        assert((a + b)[a.len() + i] == b[i]);
    }
    if draws(a + b, kind) {
        let i = choose|i: int| 0 <= i < (a + b).len() && is_mark(#[trigger] (a + b)[i], kind);
        if i < a.len() {
            assert(a[i] == (a + b)[i]);
        } else {
            assert(b[i - a.len()] == (a + b)[i]);
        }
    }
}

/// Whether a row is one that can be taken or could be, and some of it is visible.
pub open spec fn is_shown(menu: &PreparedMenu, index: int) -> bool {
    &&& 0 <= index < menu.entries@.len()
    &&& menu.entries@[index].selection is Some
    &&& menu.row_drawing(index, None).len() > 0
}

proof fn lemma_row_parts(
    menu: &PreparedMenu,
    index: int,
    selected: Option<MenuSelection>,
    kind: Mark,
)
    requires
        is_shown(menu, index),
    ensures
        ({
            let entry = menu.entries@[index];
            let width = menu.rect_of(entry).width as int;
            let hovered = if entry.enabled && selected == entry.selection {
                menu.hover_drawing(width, entry.height as int)
            } else {
                Seq::empty()
            };
            let label = match entry.text {
                Some(text) => label_drawing(
                    index as usize,
                    text,
                    menu.ellipsis,
                    menu.label_clip(entry, width),
                    entry.text_ink(),
                ),
                None => Seq::empty(),
            };
            draws(menu.row_drawing(index, selected), kind) == (draws(
                seq![MenuCommand::BeginRow],
                kind,
            ) || draws(hovered, kind) || draws(menu.marks_drawing(entry, width), kind) || draws(
                label,
                kind,
            ) || draws(
                seq![
                    MenuCommand::EndRow {
                        x: menu.rect_of(entry).x,
                        y: menu.rect_of(entry).y,
                        clip: menu.clip_of(entry),
                    },
                ],
                kind,
            ))
        }),
{
    let entry = menu.entries@[index];
    let target = menu.rect_of(entry);
    let width = target.width as int;
    let begin = seq![MenuCommand::BeginRow];
    let hovered = if entry.enabled && selected == entry.selection {
        menu.hover_drawing(width, entry.height as int)
    } else {
        Seq::empty()
    };
    let marks = menu.marks_drawing(entry, width);
    let label = match entry.text {
        Some(text) => label_drawing(
            index as usize,
            text,
            menu.ellipsis,
            menu.label_clip(entry, width),
            entry.text_ink(),
        ),
        None => Seq::empty(),
    };
    let end = seq![MenuCommand::EndRow { x: target.x, y: target.y, clip: menu.clip_of(entry) }];
    lemma_draws_join(begin, hovered, kind);
    lemma_draws_join(begin + hovered, marks, kind);
    lemma_draws_join(begin + hovered + marks, label, kind);
    lemma_draws_join(begin + hovered + marks + label, end, kind);
}

/// Every command of a drawing is one of a few: a way to look for one.
proof fn lemma_draws_at(commands: Seq<MenuCommand>, place: int, kind: Mark)
    requires
        0 <= place < commands.len(),
        is_mark(commands[place], kind),
    ensures
        draws(commands, kind),
{
}

proof fn lemma_toggle_marks(
    x: int,
    y: int,
    scale: int,
    toggle_type: ToggleType,
    state: ToggleState,
    enabled: bool,
)
    requires
        1 <= scale <= 0x1_0000,
    ensures
        ({
            let drawn = toggle_drawing(x, y, scale, toggle_type, state, enabled);
            let radio = toggle_type == ToggleType::Radio;
            &&& draws(drawn, Mark::Tick) <==> !radio && state == ToggleState::On
            &&& draws(drawn, Mark::Dot(scale)) <==> radio && state == ToggleState::On
            &&& draws(drawn, Mark::Bar) <==> state == ToggleState::Indeterminate
            &&& draws(drawn, Mark::FilledFrame(scale)) <==> state != ToggleState::Off
            &&& draws(drawn, Mark::FaintFrame(scale)) <==> state == ToggleState::Off
            &&& draws(drawn, Mark::Hole) <==> radio || state == ToggleState::Off
            &&& !draws(drawn, Mark::Hover)
            &&& !draws(drawn, Mark::Arrow(true))
            &&& !draws(drawn, Mark::Arrow(false))
            &&& enabled ==> !draws(drawn, Mark::Muted)
            &&& !enabled ==> draws(drawn, Mark::Muted)
        }),
{
    let drawn = toggle_drawing(x, y, scale, toggle_type, state, enabled);
    let radio = toggle_type == ToggleType::Radio;
    lemma_draws_at_all(drawn);
    if state == ToggleState::On && !radio {
        lemma_draws_at(drawn, 1, Mark::Tick);
    }
    if state == ToggleState::On && radio {
        lemma_draws_at(drawn, 2, Mark::Dot(scale));
    }
    if state == ToggleState::Indeterminate {
        lemma_draws_at(drawn, drawn.len() - 1, Mark::Bar);
    }
    if state != ToggleState::Off {
        lemma_draws_at(drawn, 0, Mark::FilledFrame(scale));
    } else {
        lemma_draws_at(drawn, 0, Mark::FaintFrame(scale));
    }
    if radio || state == ToggleState::Off {
        lemma_draws_at(drawn, 1, Mark::Hole);
    }
    if !enabled {
        lemma_draws_at(drawn, 0, Mark::Muted);
    }
}

proof fn lemma_draws_at_all(commands: Seq<MenuCommand>)
    ensures
        commands.len() <= 3 ==> forall|kind: Mark| #[trigger]
            draws(commands, kind) ==> (commands.len() > 0 && is_mark(commands[0], kind)) || (commands.len() > 1
                && is_mark(commands[1], kind)) || (commands.len() > 2 && is_mark(commands[2], kind)),
{
}

/// Toggles and arrows are drawn nowhere but among the marks of a row.
proof fn lemma_only_marks(
    menu: &PreparedMenu,
    index: int,
    selected: Option<MenuSelection>,
    kind: Mark,
)
    requires
        1 <= menu.scale <= 0x1_0000,
        is_shown(menu, index),
        kind == Mark::Tick || kind == Mark::Dot(menu.scale as int) || kind == Mark::Bar || kind
            == Mark::FilledFrame(menu.scale as int) || kind == Mark::FaintFrame(menu.scale as int)
            || kind == Mark::Hole || kind is Arrow || kind == Mark::Muted,
    ensures
        draws(menu.row_drawing(index, selected), kind) == draws(
            menu.marks_drawing(
                menu.entries@[index],
                menu.rect_of(menu.entries@[index]).width as int,
            ),
            kind,
        ),
{
    lemma_row_parts(menu, index, selected, kind);
    let entry = menu.entries@[index];
    let width = menu.rect_of(entry).width as int;
    lemma_draws_at_all(menu.hover_drawing(width, entry.height as int));
    if let Some(text) = entry.text {
        lemma_draws_at_all(
            label_drawing(
                index as usize,
                text,
                menu.ellipsis,
                menu.label_clip(entry, width),
                entry.text_ink(),
            ),
        );
    }
}

/// A checkbox has a tick if and only if it is on, a radio button a dot if and only if
/// it is on. What is off is a hollow frame with nothing inside, and what is neither
/// has a bar.
pub proof fn law_toggles_show_their_state(
    menu: &PreparedMenu,
    index: int,
    selected: Option<MenuSelection>,
)
    requires
        menu.laid_out(),
        is_shown(menu, index),
        menu.entries@[index].selection != Some(MenuSelection::Back),
    ensures
        ({
            let entry = menu.entries@[index];
            let drawn = menu.row_drawing(index, selected);
            let scale = menu.scale as int;
            let checkbox = entry.toggle_type == ToggleType::Checkmark;
            let radio = entry.toggle_type == ToggleType::Radio;
            let off = entry.toggle_state == ToggleState::Off;
            &&& draws(drawn, Mark::Tick) <==> checkbox && entry.toggle_state == ToggleState::On
            &&& draws(drawn, Mark::Dot(scale)) <==> radio && entry.toggle_state == ToggleState::On
            &&& draws(drawn, Mark::Bar) <==> (checkbox || radio) && entry.toggle_state
                == ToggleState::Indeterminate
            &&& (checkbox || radio) && off ==> draws(drawn, Mark::FaintFrame(scale)) && draws(
                drawn,
                Mark::Hole,
            )
            &&& draws(drawn, Mark::FilledFrame(scale)) ==> (checkbox || radio) && !off
            &&& checkbox && !off ==> draws(drawn, Mark::FilledFrame(scale)) && !draws(
                drawn,
                Mark::Hole,
            )
            &&& !checkbox && !radio ==> !draws(drawn, Mark::Hole) && !draws(
                drawn,
                Mark::FaintFrame(scale),
            )
        }),
{
    let entry = menu.entries@[index];
    let scale = menu.scale as int;
    lemma_marks(menu, entry, menu.rect_of(entry).width as int);
    lemma_only_marks(menu, index, selected, Mark::Tick);
    lemma_only_marks(menu, index, selected, Mark::Dot(scale));
    lemma_only_marks(menu, index, selected, Mark::Bar);
    lemma_only_marks(menu, index, selected, Mark::FaintFrame(scale));
    lemma_only_marks(menu, index, selected, Mark::FilledFrame(scale));
    lemma_only_marks(menu, index, selected, Mark::Hole);
}

proof fn lemma_marks(menu: &PreparedMenu, entry: PreparedMenuEntry, width: int)
    requires
        1 <= menu.scale <= 0x1_0000,
    ensures
        ({
            let drawn = menu.marks_drawing(entry, width);
            let back = entry.selection == Some(MenuSelection::Back);
            let toggle = !back && entry.toggle_type != ToggleType::CannotBeToggled;
            let radio = entry.toggle_type == ToggleType::Radio;
            let scale = menu.scale as int;
            &&& draws(drawn, Mark::Tick) <==> toggle && !radio && entry.toggle_state
                == ToggleState::On
            &&& draws(drawn, Mark::Dot(scale)) <==> toggle && radio && entry.toggle_state
                == ToggleState::On
            &&& draws(drawn, Mark::Bar) <==> toggle && entry.toggle_state
                == ToggleState::Indeterminate
            &&& draws(drawn, Mark::FilledFrame(scale)) <==> toggle && entry.toggle_state
                != ToggleState::Off
            &&& draws(drawn, Mark::FaintFrame(scale)) <==> toggle && entry.toggle_state
                == ToggleState::Off
            &&& draws(drawn, Mark::Hole) <==> toggle && (radio || entry.toggle_state
                == ToggleState::Off)
            &&& draws(drawn, Mark::Arrow(true)) <==> back
            &&& draws(drawn, Mark::Arrow(false)) <==> entry.submenu
            &&& !draws(drawn, Mark::Hover)
            &&& entry.enabled ==> !draws(drawn, Mark::Muted)
            &&& !entry.enabled && (toggle || entry.submenu) ==> draws(drawn, Mark::Muted)
        }),
{
    let s = menu.scale as int;
    let back = entry.selection == Some(MenuSelection::Back);
    let toggle = !back && entry.toggle_type != ToggleType::CannotBeToggled;
    let drawn = menu.marks_drawing(entry, width);
    let bare = menu.marks_drawing(PreparedMenuEntry { submenu: false, ..entry }, width);
    let arrow = if entry.submenu {
        seq![drawn.last()]
    } else {
        Seq::empty()
    };
    assert(drawn =~= bare + arrow);
    if toggle {
        lemma_toggle_marks(
            10 * s,
            crate::render::layout::half(entry.height as int) - 7 * s,
            s,
            entry.toggle_type,
            entry.toggle_state,
            entry.enabled,
        );
    }
    lemma_draws_at_all(bare);
    lemma_draws_at_all(arrow);
    lemma_draws_join(bare, arrow, Mark::Tick);
    lemma_draws_join(bare, arrow, Mark::Dot(s));
    lemma_draws_join(bare, arrow, Mark::Bar);
    lemma_draws_join(bare, arrow, Mark::FilledFrame(s));
    lemma_draws_join(bare, arrow, Mark::FaintFrame(s));
    lemma_draws_join(bare, arrow, Mark::Hole);
    lemma_draws_join(bare, arrow, Mark::Arrow(true));
    lemma_draws_join(bare, arrow, Mark::Arrow(false));
    lemma_draws_join(bare, arrow, Mark::Hover);
    lemma_draws_join(bare, arrow, Mark::Muted);
    if back {
        lemma_draws_at(bare, 0, Mark::Arrow(true));
    }
    if entry.submenu {
        lemma_draws_at(arrow, 0, Mark::Arrow(false));
        if !entry.enabled {
            lemma_draws_at(arrow, 0, Mark::Muted);
        }
    }
}

proof fn lemma_hover(menu: &PreparedMenu, index: int, selected: Option<MenuSelection>)
    requires
        1 <= menu.scale <= 0x1_0000,
        is_shown(menu, index),
    ensures
        draws(menu.row_drawing(index, selected), Mark::Hover) <==> menu.entries@[index].enabled
            && selected == menu.entries@[index].selection,
{
    let entry = menu.entries@[index];
    let width = menu.rect_of(entry).width as int;
    lemma_row_parts(menu, index, selected, Mark::Hover);
    lemma_marks(menu, entry, width);
    let hovered = menu.hover_drawing(width, entry.height as int);
    lemma_draws_at(hovered, 0, Mark::Hover);
    if let Some(text) = entry.text {
        lemma_draws_at_all(
            label_drawing(
                index as usize,
                text,
                menu.ellipsis,
                menu.label_clip(entry, width),
                entry.text_ink(),
            ),
        );
    }
}

/// An arrow leads back from the header, and into what has a submenu; no other row has
/// one. The background of a row tells that it is selected and can be taken. Marks are
/// muted on what cannot be taken.
pub proof fn law_rows_tell_where_they_lead(
    menu: &PreparedMenu,
    index: int,
    selected: Option<MenuSelection>,
)
    requires
        menu.laid_out(),
        is_shown(menu, index),
    ensures
        ({
            let entry = menu.entries@[index];
            let drawn = menu.row_drawing(index, selected);
            &&& draws(drawn, Mark::Arrow(true)) <==> entry.selection == Some(MenuSelection::Back)
            &&& draws(drawn, Mark::Arrow(false)) <==> entry.submenu
            &&& draws(drawn, Mark::Hover) <==> entry.enabled && selected == entry.selection
            &&& entry.enabled ==> !draws(drawn, Mark::Muted)
            &&& !entry.enabled && entry.submenu ==> draws(drawn, Mark::Muted)
        }),
{
    let entry = menu.entries@[index];
    let width = menu.rect_of(entry).width as int;
    lemma_marks(menu, entry, width);
    lemma_only_marks(menu, index, selected, Mark::Arrow(true));
    lemma_only_marks(menu, index, selected, Mark::Arrow(false));
    lemma_only_marks(menu, index, selected, Mark::Muted);
    lemma_hover(menu, index, selected);
}

/// A row shows the text of its own entry and of no other, in the color that tells
/// whether it can be taken; the text is marked as cut exactly if it is too wide.
pub proof fn law_rows_show_their_own_text(
    menu: &PreparedMenu,
    index: int,
    selected: Option<MenuSelection>,
)
    requires
        menu.laid_out(),
        menu.entries@.len() <= usize::MAX,
        is_shown(menu, index),
    ensures
        ({
            let entry = menu.entries@[index];
            let drawn = menu.row_drawing(index, selected);
            let room = menu.label_clip(entry, menu.rect_of(entry).width as int).width;
            let back = entry.selection == Some(MenuSelection::Back);
            &&& draws(drawn, Mark::Text(index)) <==> entry.text is Some
            &&& !draws(drawn, Mark::OtherText(index))
            &&& draws(drawn, Mark::Cut) <==> (entry.text matches Some(text) && text.width > room)
            &&& draws(drawn, Mark::WrittenIn(TextInk::Header)) <==> entry.text is Some && back
            &&& draws(drawn, Mark::WrittenIn(TextInk::Usual)) <==> entry.text is Some && !back
                && entry.enabled
            &&& draws(drawn, Mark::WrittenIn(TextInk::Disabled)) <==> entry.text is Some && !back
                && !entry.enabled
        }),
{
    let entry = menu.entries@[index];
    let width = menu.rect_of(entry).width as int;
    lemma_row_parts(menu, index, selected, Mark::Text(index));
    lemma_row_parts(menu, index, selected, Mark::OtherText(index));
    lemma_row_parts(menu, index, selected, Mark::Cut);
    lemma_row_parts(menu, index, selected, Mark::WrittenIn(TextInk::Header));
    lemma_row_parts(menu, index, selected, Mark::WrittenIn(TextInk::Usual));
    lemma_row_parts(menu, index, selected, Mark::WrittenIn(TextInk::Disabled));
    lemma_marks_are_no_texts(menu, entry, width, index);
    if let Some(text) = entry.text {
        let label = label_drawing(
            index as usize,
            text,
            menu.ellipsis,
            menu.label_clip(entry, width),
            entry.text_ink(),
        );
        lemma_draws_at_all(label);
        lemma_draws_at(label, 0, Mark::Text(index));
        if text.width > menu.label_clip(entry, width).width {
            lemma_draws_at(label, 1, Mark::Cut);
        }
        if entry.selection == Some(MenuSelection::Back) {
            lemma_draws_at(label, 0, Mark::WrittenIn(TextInk::Header));
        } else if entry.enabled {
            lemma_draws_at(label, 0, Mark::WrittenIn(TextInk::Usual));
        } else {
            lemma_draws_at(label, 0, Mark::WrittenIn(TextInk::Disabled));
        }
    }
}

proof fn lemma_marks_are_no_texts(
    menu: &PreparedMenu,
    entry: PreparedMenuEntry,
    width: int,
    index: int,
)
    ensures
        ({
            let drawn = menu.marks_drawing(entry, width);
            forall|i: int|
                0 <= i < drawn.len() ==> !(#[trigger] drawn[i] is RowText) && !(drawn[i]
                    is RowEllipsis)
        }),
{
}

/// Laid out, an entry keeps what it is: its number, whether it can be taken, its
/// toggle and its submenu.
pub proof fn law_rows_keep_their_entry(
    entries: Seq<TrayMenuEntry>,
    rows: Seq<MenuRow>,
    labels: Seq<Size>,
    row_height: int,
    scale: u32,
    index: int,
)
    requires
        0 <= index < rows.len(),
    ensures
        ({
            let row = prepared_row(entries, rows, labels, row_height, scale, index);
            match rows[index] {
                MenuRow::Item(place) => {
                    let entry = entries[place as int];
                    &&& row.selection == Some(MenuSelection::Item(entry.id))
                    &&& row.enabled == entry.enabled
                    &&& row.toggle_type == entry.toggle_type
                    &&& row.toggle_state == entry.toggle_state
                    &&& row.submenu <==> entry.submenu@.len() > 0
                    &&& row.text == Some(labels[index])
                },
                MenuRow::Back => row.selection == Some(MenuSelection::Back) && row.enabled
                    && !row.submenu && row.toggle_type == ToggleType::CannotBeToggled && row.text
                    == Some(labels[index]),
                MenuRow::Separator => row.selection is None && !row.enabled && row.text is None,
            }
        }),
{
}

} // verus!
